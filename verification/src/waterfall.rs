//! Following a waterfall file while it is written.
//!
//! A file starts with the number of its frequencies and the frequencies. Lines
//! follow, each with the seconds since the start and one sample for each
//! frequency. [`Watch`] decides what to do with a changed file; its owner does
//! it and reports back, by the method that [`Watch::request`] calls for.

use crate::event::{Event, Level};
use crate::names::{observation_in, Found};
use crate::samples::{read_word, read_words};
use crate::single::truncate;
use crate::text::decimal_text;
use vstd::prelude::*;

verus! {

/// What happened to a file, as far as it matters.
#[derive(Clone, Copy, Debug, PartialEq, Eq, Structural)]
pub struct Ops {
    pub create: bool,
    pub write: bool,
    pub close_write: bool,
}

/// What is left to do for a change to the waterfall of the observation `id`.
#[derive(Clone, Copy, Debug, PartialEq, Eq, Structural)]
pub struct Rest {
    pub id: u64,
    pub write: bool,
    pub close: bool,
}

/// An open waterfall file whose frequencies have been read.
#[derive(Clone, Copy, Debug, PartialEq, Eq, Structural)]
pub struct Source {
    /// How many frequencies the file has.
    pub fft_size: u64,
    /// How many bytes have been read.
    pub position: u64,
}

/// Why a watch cannot go on.
#[derive(Clone, Copy, Debug, PartialEq, Eq, Structural)]
pub enum Fault {
    /// The number of the observation in a file name is none.
    Unreadable,
    /// The size of a line is beyond counting.
    Oversized,
    /// The file is shorter than what has been read of it.
    Shrunk,
}

/// What a watch waits for.
#[derive(Clone, Copy, Debug, PartialEq, Eq, Structural)]
pub enum Phase {
    /// The next change.
    Idle,
    /// Whether the new file could be opened.
    Opening(Rest),
    /// The new file to hold its number of frequencies.
    AwaitSize(Rest),
    /// The number of frequencies.
    ReadSize(Rest),
    /// The new file to hold so many frequencies.
    AwaitTable(Rest, u64),
    /// The frequencies.
    ReadTable(Rest, u64),
    /// The size of the file.
    Measuring(Rest),
    /// A line.
    ReadLine(Rest),
    /// Nothing any more.
    Halted(Fault),
}

/// What the owner of a watch has to do next.
#[derive(Clone, Copy, Debug, PartialEq, Eq, Structural)]
pub enum Request {
    /// Wait for a change and report it to [`Watch::noticed`].
    Change,
    /// Open the changed file and report to [`Watch::opened`].
    Open,
    /// Report the size of the file that was opened last to [`Watch::measured`].
    Size,
    /// Report that many bytes, the next in that file, to [`Watch::read`].
    Bytes(u64),
    /// Give up.
    Halt(Fault),
}

/// The bytes of a line, and of the start of a file, with `fft_size`
/// frequencies.
pub open spec fn line_len(fft_size: u64) -> int {
    4 + 4 * fft_size
}

/// The state of following a waterfall.
#[derive(Clone, Copy, Debug, PartialEq, Eq, Structural)]
pub struct Watch {
    /// The observation of the file that was created last.
    pub observation: u64,
    /// The file that is followed.
    pub source: Option<Source>,
    pub phase: Phase,
}

/// What a report to a watch leads to: its next state, and the events that it
/// brings about, in their order.
pub struct Outcome {
    pub watch: Watch,
    pub events: Seq<crate::event::EventView>,
}

/// What a watch has to tell after a report.
#[derive(Debug)]
pub struct Turn {
    /// Events to send, in this order. Those that are log messages go through the
    /// logger, which passes on what is wanted.
    pub events: Vec<Event>,
}

/// The message that a file was created.
pub open spec fn created_note(path: Seq<char>) -> crate::event::EventView {
    crate::event::EventView::Log(Level::Info, "File created: "@ + path)
}

/// The message that there may be new lines.
pub open spec fn data_note(id: u64) -> crate::event::EventView {
    crate::event::EventView::Log(
        Level::Info,
        "New waterfall data for observation "@ + crate::text::decimal(id as nat),
    )
}

/// The message that a change does not belong to the followed observation.
pub open spec fn mismatch_note(id: u64, followed: u64) -> crate::event::EventView {
    crate::event::EventView::Log(
        Level::Warn,
        "Waterfall doesn't match last observarion "@ + crate::text::decimal(id as nat) + " != "@
            + crate::text::decimal(followed as nat),
    )
}

/// The message that a waterfall was closed.
pub open spec fn closed_note(id: u64) -> crate::event::EventView {
    crate::event::EventView::Log(
        Level::Info,
        "Closed waterfall for observation "@ + crate::text::decimal(id as nat),
    )
}

/// The outcome that `watch` and `turn` amount to.
pub open spec fn outcome(watch: Watch, turn: Turn) -> Outcome {
    Outcome { watch, events: crate::event::event_views(turn.events@) }
}

/// `w` goes to `phase`, and sends nothing.
pub open spec fn enters(w: Watch, phase: Phase) -> Outcome {
    Outcome { watch: Watch { phase, ..w }, events: Seq::empty() }
}

/// The end of a change: a closed file is reported.
pub open spec fn finishes(w: Watch, rest: Rest) -> Outcome {
    Outcome {
        watch: Watch { phase: Phase::Idle, ..w },
        events: if rest.close {
            seq![closed_note(rest.id), crate::event::EventView::WaterfallClosed(rest.id)]
        } else {
            Seq::empty()
        },
    }
}

/// A change after its file was opened, where it had to be: a written file is
/// looked at if it is the followed one.
pub open spec fn goes_on(w: Watch, rest: Rest) -> Outcome {
    if rest.write && w.source is Some {
        if rest.id == w.observation {
            Outcome {
                watch: Watch { phase: Phase::Measuring(rest), ..w },
                events: seq![data_note(w.observation)],
            }
        } else {
            let end = finishes(w, rest);
            Outcome { events: seq![mismatch_note(rest.id, w.observation)] + end.events, ..end }
        }
    } else {
        finishes(w, rest)
    }
}

/// Whether a change by `ops` is one that `w` acts on.
pub open spec fn acts_on(w: Watch, ops: Ops) -> bool {
    ops.create || ops.close_write || (ops.write && w.source is Some)
}

/// A change by `ops` to a file whose path says `found`.
pub open spec fn on_change(w: Watch, ops: Ops, found: Found) -> Outcome {
    match found {
        Found::Nothing => enters(w, Phase::Idle),
        Found::Unreadable => if acts_on(w, ops) {
            enters(w, Phase::Halted(Fault::Unreadable))
        } else {
            enters(w, Phase::Idle)
        },
        Found::Observation(id) => {
            let rest = Rest { id, write: ops.write, close: ops.close_write };
            if ops.create {
                enters(Watch { observation: id, ..w }, Phase::Opening(rest))
            } else {
                goes_on(w, rest)
            }
        },
    }
}

/// A change by `ops` to the file at `path`, which says `found`. A created file is
/// noted, whatever it is.
pub open spec fn on_notice(w: Watch, ops: Ops, path: Option<Seq<char>>, found: Found) -> Outcome {
    let next = on_change(w, ops, found);
    match path {
        Some(name) => if ops.create {
            Outcome { events: seq![created_note(name)] + next.events, ..next }
        } else {
            next
        },
        None => next,
    }
}

/// The attempt to open the new file succeeded or not.
pub open spec fn on_open(w: Watch, success: bool) -> Outcome {
    match w.phase {
        Phase::Opening(rest) => if success {
            enters(w, Phase::AwaitSize(rest))
        } else {
            goes_on(w, rest)
        },
        _ => enters(w, w.phase),
    }
}

/// The file has `size` bytes.
pub open spec fn on_size(w: Watch, size: u64) -> Outcome {
    match w.phase {
        Phase::AwaitSize(rest) => if size < 4 {
            enters(w, w.phase)
        } else {
            enters(w, Phase::ReadSize(rest))
        },
        Phase::AwaitTable(rest, n) => if size < line_len(n) {
            enters(w, w.phase)
        } else {
            enters(w, Phase::ReadTable(rest, n))
        },
        Phase::Measuring(rest) => if size < w.source->0.position {
            enters(w, Phase::Halted(Fault::Shrunk))
        } else if size - w.source->0.position >= line_len(w.source->0.fft_size) {
            enters(w, Phase::ReadLine(rest))
        } else {
            finishes(w, rest)
        },
        _ => enters(w, w.phase),
    }
}

/// The requested `bytes` have been read.
pub open spec fn on_bytes(w: Watch, bytes: Seq<u8>) -> Outcome {
    match w.phase {
        Phase::ReadSize(rest) => {
            let n = crate::single::truncated(crate::samples::word(bytes));
            if line_len(n) > u64::MAX {
                enters(w, Phase::Halted(Fault::Oversized))
            } else {
                enters(w, Phase::AwaitTable(rest, n))
            }
        },
        Phase::ReadTable(rest, n) => {
            let source = Source { fft_size: n, position: line_len(n) as u64 };
            let next = goes_on(Watch { source: Some(source), ..w }, rest);
            let created = crate::event::EventView::WaterfallCreated(
                w.observation,
                crate::samples::words(bytes),
            );
            Outcome { events: seq![created] + next.events, ..next }
        },
        Phase::ReadLine(rest) => {
            let source = Source {
                fft_size: w.source->0.fft_size,
                position: (w.source->0.position + bytes.len()) as u64,
            };
            let numbers = crate::samples::words(bytes);
            Outcome {
                watch: Watch { source: Some(source), phase: Phase::Measuring(rest), ..w },
                events: seq![
                    crate::event::EventView::WaterfallData(numbers[0], numbers.drop_first()),
                ],
            }
        },
        _ => enters(w, w.phase),
    }
}

/// What `w` asks its owner for.
pub open spec fn requested(w: Watch) -> Request {
    match w.phase {
        Phase::Idle => Request::Change,
        Phase::Opening(_) => Request::Open,
        Phase::AwaitSize(_) | Phase::AwaitTable(_, _) | Phase::Measuring(_) => Request::Size,
        Phase::ReadSize(_) => Request::Bytes(4),
        Phase::ReadTable(_, n) => Request::Bytes((4 * n) as u64),
        Phase::ReadLine(_) => Request::Bytes(line_len(w.source->0.fft_size) as u64),
        Phase::Halted(fault) => Request::Halt(fault),
    }
}

impl Watch {
    /// A followed file has been read up to the end of a line. Lines are only
    /// looked for in it for the followed observation.
    pub open spec fn wf(self) -> bool {
        &&& self.source matches Some(source) ==> {
            &&& line_len(source.fft_size) <= source.position
            &&& source.position as int % line_len(source.fft_size) == 0
        }
        &&& match self.phase {
            Phase::AwaitTable(_, n) => line_len(n) <= u64::MAX,
            Phase::ReadTable(_, n) => line_len(n) <= u64::MAX,
            Phase::Measuring(rest) => self.source is Some && rest.id == self.observation,
            Phase::ReadLine(rest) => {
                &&& self.source is Some
                &&& rest.id == self.observation
                &&& self.source->0.position + line_len(self.source->0.fft_size) <= u64::MAX
            },
            _ => true,
        }
    }

    /// A watch that follows nothing yet.
    pub fn new() -> (r: Watch)
        ensures
            r == (Watch { observation: 0, source: None, phase: Phase::Idle }),
            r.wf(),
    {
        Watch { observation: 0, source: None, phase: Phase::Idle }
    }

    /// What the owner has to do next.
    pub fn request(&self) -> (r: Request)
        requires
            self.wf(),
        ensures
            r == requested(*self),
    {
        match self.phase {
            Phase::Idle => Request::Change,
            Phase::Opening(_) => Request::Open,
            Phase::AwaitSize(_) => Request::Size,
            Phase::AwaitTable(_, _) => Request::Size,
            Phase::Measuring(_) => Request::Size,
            Phase::ReadSize(_) => Request::Bytes(4),
            Phase::ReadTable(_, n) => Request::Bytes(4 * n),
            Phase::ReadLine(_) => match self.source {
                Some(source) => Request::Bytes(4 + 4 * source.fft_size),
                None => Request::Change,
            },
            Phase::Halted(fault) => Request::Halt(fault),
        }
    }

    /// Whether a change by `ops` is one to act on.
    pub fn heeds(&self, ops: Ops) -> (r: bool)
        ensures
            r == acts_on(*self, ops),
    {
        ops.create || ops.close_write || (ops.write && self.source.is_some())
    }

    fn enter(&mut self, phase: Phase) -> (r: Turn)
        ensures
            outcome(*final(self), r) == enters(*old(self), phase),
    {
        self.phase = phase;
        let events: Vec<Event> = Vec::new();
        assert(crate::event::event_views(events@) =~= Seq::empty());
        Turn { events }
    }

    fn finish(&mut self, rest: Rest) -> (r: Turn)
        ensures
            outcome(*final(self), r) == finishes(*old(self), rest),
    {
        self.phase = Phase::Idle;
        let mut events: Vec<Event> = Vec::new();
        if rest.close {
            let mut note = "Closed waterfall for observation ".to_owned();
            note.append(decimal_text(rest.id).as_str());
            events.push(Event::Log((Level::Info, note)));
            events.push(Event::WaterfallClosed(rest.id));
        }
        assert(crate::event::event_views(events@) =~= finishes(*old(self), rest).events);
        Turn { events }
    }

    fn go_on(&mut self, rest: Rest) -> (r: Turn)
        ensures
            outcome(*final(self), r) == goes_on(*old(self), rest),
    {
        if rest.write && self.source.is_some() {
            if rest.id == self.observation {
                self.phase = Phase::Measuring(rest);
                let mut note = "New waterfall data for observation ".to_owned();
                note.append(decimal_text(self.observation).as_str());
                let mut events: Vec<Event> = Vec::new();
                events.push(Event::Log((Level::Info, note)));
                assert(crate::event::event_views(events@) =~= goes_on(*old(self), rest).events);
                Turn { events }
            } else {
                let mut note = "Waterfall doesn't match last observarion ".to_owned();
                note.append(decimal_text(rest.id).as_str());
                note.append(" != ");
                note.append(decimal_text(self.observation).as_str());
                let end = self.finish(rest);
                preceded(Event::Log((Level::Warn, note)), end)
            }
        } else {
            self.finish(rest)
        }
    }

    /// Takes up a change by `ops` to a file whose path says `found`.
    pub fn changed(&mut self, ops: Ops, found: Found) -> (r: Turn)
        requires
            old(self).wf(),
            requested(*old(self)) is Change,
        ensures
            outcome(*final(self), r) == on_change(*old(self), ops, found),
            final(self).wf(),
    {
        match found {
            Found::Nothing => self.enter(Phase::Idle),
            Found::Unreadable => if self.heeds(ops) {
                self.enter(Phase::Halted(Fault::Unreadable))
            } else {
                self.enter(Phase::Idle)
            },
            Found::Observation(id) => {
                let rest = Rest { id, write: ops.write, close: ops.close_write };
                if ops.create {
                    self.observation = id;
                    self.enter(Phase::Opening(rest))
                } else {
                    self.go_on(rest)
                }
            },
        }
    }

    /// Takes up a change by `ops` to the file at `path`. A usual path is that of the
    /// observation whose number was written there.
    pub fn noticed(&mut self, ops: Ops, path: Option<&str>) -> (r: Turn)
        requires
            old(self).wf(),
            requested(*old(self)) is Change,
        ensures
            outcome(*final(self), r) == (match path {
                Some(p) => on_notice(
                    *old(self),
                    ops,
                    Some(p@),
                    crate::names::found(
                        crate::names::regex_group(crate::names::file_pattern(), p@),
                    ),
                ),
                None => on_notice(*old(self), ops, None, Found::Nothing),
            }),
            forall|directory: Seq<char>, id: u64, stamp: Seq<char>|
                path is Some && crate::names::usual_path(
                    directory,
                    crate::text::decimal(id as nat),
                    stamp,
                ) && path->0@ == #[trigger] crate::names::waterfall_path(
                    directory,
                    crate::text::decimal(id as nat),
                    stamp,
                ) ==> outcome(*final(self), r) == on_notice(
                    *old(self),
                    ops,
                    Some(path->0@),
                    Found::Observation(id),
                ),
            final(self).wf(),
    {
        match path {
            Some(p) => {
                let turn = self.changed(ops, observation_in(p));
                if ops.create {
                    let mut note = "File created: ".to_owned();
                    note.append(p);
                    preceded(Event::Log((Level::Info, note)), turn)
                } else {
                    turn
                }
            },
            None => self.changed(ops, Found::Nothing),
        }
    }

    /// Takes up whether the new file could be opened.
    pub fn opened(&mut self, success: bool) -> (r: Turn)
        requires
            old(self).wf(),
            requested(*old(self)) is Open,
        ensures
            outcome(*final(self), r) == on_open(*old(self), success),
            final(self).wf(),
    {
        match self.phase {
            Phase::Opening(rest) => if success {
                self.enter(Phase::AwaitSize(rest))
            } else {
                self.go_on(rest)
            },
            _ => self.enter(self.phase),
        }
    }

    /// Takes up the size of the file.
    pub fn measured(&mut self, size: u64) -> (r: Turn)
        requires
            old(self).wf(),
            requested(*old(self)) is Size,
        ensures
            outcome(*final(self), r) == on_size(*old(self), size),
            final(self).wf(),
    {
        match self.phase {
            Phase::AwaitSize(rest) => if size < 4 {
                self.enter(self.phase)
            } else {
                self.enter(Phase::ReadSize(rest))
            },
            Phase::AwaitTable(rest, n) => if size < 4 + 4 * n {
                self.enter(self.phase)
            } else {
                self.enter(Phase::ReadTable(rest, n))
            },
            Phase::Measuring(rest) => match self.source {
                Some(source) => if size < source.position {
                    self.enter(Phase::Halted(Fault::Shrunk))
                } else if size - source.position >= 4 + 4 * source.fft_size {
                    self.enter(Phase::ReadLine(rest))
                } else {
                    self.finish(rest)
                },
                None => self.finish(rest),
            },
            _ => self.enter(self.phase),
        }
    }

    /// Takes up the bytes that were asked for.
    pub fn read(&mut self, bytes: &Vec<u8>) -> (r: Turn)
        requires
            old(self).wf(),
            bytes@.len() <= u64::MAX,
            requested(*old(self)) == Request::Bytes(bytes@.len() as u64),
        ensures
            outcome(*final(self), r) == on_bytes(*old(self), bytes@),
            final(self).wf(),
    {
        match self.phase {
            Phase::ReadSize(rest) => {
                let n: u64 = truncate(read_word(bytes.as_slice()));
                if n > (u64::MAX - 4) / 4 {
                    self.enter(Phase::Halted(Fault::Oversized))
                } else {
                    self.enter(Phase::AwaitTable(rest, n))
                }
            },
            Phase::ReadTable(rest, n) => {
                let created = Event::WaterfallCreated(
                    self.observation,
                    read_words(bytes.as_slice()),
                );
                self.source = Some(Source { fft_size: n, position: 4 + 4 * n });
                proof {
                    vstd::arithmetic::div_mod::lemma_mod_self_0(line_len(n));
                }
                let next = self.go_on(rest);
                preceded(created, next)
            },
            Phase::ReadLine(rest) => {
                if let Some(source) = self.source {
                    let mut numbers = read_words(bytes.as_slice());
                    let ghost all = numbers@;
                    let seconds: u32 = numbers.remove(0);
                    assert(numbers@ =~= all.drop_first());
                    let position: u64 = source.position + (4 + 4 * source.fft_size);
                    proof {
                        lemma_next_line(source.position as int, line_len(source.fft_size));
                    }
                    self.source = Some(Source { fft_size: source.fft_size, position });
                    self.phase = Phase::Measuring(rest);
                    let mut events: Vec<Event> = Vec::new();
                    events.push(Event::WaterfallData(seconds, numbers));
                    assert(crate::event::event_views(events@) =~= on_bytes(
                        *old(self),
                        bytes@,
                    ).events);
                    return Turn { events };
                }
                self.enter(self.phase)
            },
            _ => self.enter(self.phase),
        }
    }
}

/// `turn` with `event` before all others.
fn preceded(event: Event, turn: Turn) -> (r: Turn)
    ensures
        crate::event::event_views(r.events@) == seq![event@] + crate::event::event_views(
            turn.events@,
        ),
{
    let mut events: Vec<Event> = Vec::new();
    events.push(event);
    let mut later = turn.events;
    let ghost tail = later@;
    events.append(&mut later);
    assert(crate::event::event_views(events@) =~= seq![event@] + crate::event::event_views(tail));
    Turn { events }
}

proof fn lemma_next_line(position: int, line: int)
    requires
        line > 0,
        position % line == 0,
    ensures
        (position + line) % line == 0,
{
    vstd::arithmetic::div_mod::lemma_mod_add_multiples_vanish(position, line);
}

/// The event for the line that `bytes` hold.
pub open spec fn line_event(bytes: Seq<u8>) -> crate::event::EventView {
    let numbers = crate::samples::words(bytes);
    crate::event::EventView::WaterfallData(numbers[0], numbers.drop_first())
}

/// The events for the lines of `line` bytes that `bytes` hold in full.
pub open spec fn line_events(bytes: Seq<u8>, line: int) -> Seq<crate::event::EventView> {
    Seq::new(
        (bytes.len() as int / line) as nat,
        |i: int| line_event(bytes.subrange(i * line, i * line + line)),
    )
}

/// What a watch that is about to measure `file` does with it in the end, if
/// each of its requests is answered from `file`.
pub open spec fn follow(w: Watch, file: Seq<u8>) -> Outcome
    decreases file.len() - w.source->0.position,
{
    let measured = on_size(w, file.len() as u64);
    let at = w.source->0.position as int;
    let line = line_len(w.source->0.fft_size);
    if w.phase is Measuring && w.source is Some && file.len() <= u64::MAX && at + line
        <= file.len() {
        let read = on_bytes(measured.watch, file.subrange(at, at + line));
        let later = follow(read.watch, file);
        Outcome { events: read.events + later.events, ..later }
    } else {
        measured
    }
}

proof fn lemma_first_line(bytes: Seq<u8>, line: int)
    requires
        0 < line <= bytes.len(),
    ensures
        line_events(bytes, line) == seq![line_event(bytes.take(line))] + line_events(
            bytes.skip(line),
            line,
        ),
        bytes.len() as int / line == 1 + bytes.skip(line).len() as int / line,
{
    let rest = bytes.skip(line);
    vstd::arithmetic::div_mod::lemma_div_plus_one(rest.len() as int, line);
    assert(bytes.len() as int / line == 1 + rest.len() as int / line);
    let whole = line_events(bytes, line);
    let parts = seq![line_event(bytes.take(line))] + line_events(rest, line);
    assert forall|i: int| 0 <= i < whole.len() implies whole[i] == parts[i] by {
        lemma_lines_inside(bytes.len() as int, line, i);
        if i == 0 {
            assert(bytes.subrange(0 * line, 0 * line + line) =~= bytes.take(line));
        } else {
            lemma_lines_inside(rest.len() as int, line, i - 1);
            assert((i - 1) * line + line == i * line) by (nonlinear_arith);
            assert(rest.subrange((i - 1) * line, (i - 1) * line + line) =~= bytes.subrange(
                i * line,
                i * line + line,
            ));
        }
    }
    assert(whole =~= parts);
}

proof fn lemma_lines_inside(len: int, line: int, i: int)
    requires
        0 < line,
        0 <= i < len / line,
    ensures
        0 <= i * line,
        i * line + line <= len,
{
    vstd::arithmetic::div_mod::lemma_fundamental_div_mod(len, line);
    vstd::arithmetic::div_mod::lemma_mod_bound(len, line);
    assert(0 <= i * line && i * line + line <= len) by (nonlinear_arith)
        requires
            0 <= i,
            i + 1 <= len / line,
            len == line * (len / line) + len % line,
            0 <= len % line,
            0 < line,
    ;
}

/// A look at a followed file forwards each line that is there in full and was
/// not forwarded before, once and in order, reads up to their end, and then
/// reports the file closed if it was.
pub proof fn law_follow_forwards_all_lines(w: Watch, rest: Rest, file: Seq<u8>)
    requires
        w.wf(),
        w.phase == Phase::Measuring(rest),
        w.source->0.position <= file.len() <= u64::MAX,
    ensures
        ({
            let at = w.source->0.position as int;
            let line = line_len(w.source->0.fft_size);
            let lines = (file.len() - at) / line;
            let done = Watch {
                source: Some(
                    Source {
                        fft_size: w.source->0.fft_size,
                        position: (at + lines * line) as u64,
                    },
                ),
                phase: Phase::Idle,
                ..w
            };
            &&& follow(w, file).watch == done
            &&& follow(w, file).events == line_events(file.skip(at), line) + finishes(
                w,
                rest,
            ).events
            &&& at + lines * line <= file.len()
            &&& done.wf()
        }),
    decreases file.len() - w.source->0.position,
{
    let at = w.source->0.position as int;
    let line = line_len(w.source->0.fft_size);
    let len = file.len() - at;
    if at + line <= file.len() {
        let measured = on_size(w, file.len() as u64);
        assert(measured.watch.phase == Phase::ReadLine(rest));
        let bytes = file.subrange(at, at + line);
        let read = on_bytes(measured.watch, bytes);
        lemma_next_line(at, line);
        law_follow_forwards_all_lines(read.watch, rest, file);
        lemma_first_line(file.skip(at), line);
        assert(file.skip(at).take(line) =~= bytes);
        assert(file.skip(at).skip(line) =~= file.skip(at + line));
        let fewer = (file.len() - (at + line)) / line;
        assert(len / line == 1 + fewer);
        assert((1 + fewer) * line == line + fewer * line) by (nonlinear_arith);
        assert(follow(w, file).events =~= line_events(file.skip(at), line) + finishes(
            w,
            rest,
        ).events);
        assert(follow(w, file).watch == follow(read.watch, file).watch);
    } else {
        vstd::arithmetic::div_mod::lemma_basic_div(len, line);
        assert(0 * line == 0);
        assert(line_events(file.skip(at), line) =~= Seq::empty());
        assert(follow(w, file).events =~= line_events(file.skip(at), line) + finishes(
            w,
            rest,
        ).events);
    }
}

/// It does not matter at which sizes a growing file is looked at: two looks,
/// the first at a part of the file, forward the same lines as one look at the
/// whole, and leave the watch at the same place.
pub proof fn law_follow_in_parts(w: Watch, rest: Rest, file: Seq<u8>, part: int)
    requires
        w.wf(),
        w.phase == Phase::Measuring(rest),
        !rest.close,
        w.source->0.position <= part <= file.len() <= u64::MAX,
    ensures
        ({
            let first = follow(w, file.take(part));
            let second = follow(Watch { phase: w.phase, ..first.watch }, file);
            let whole = follow(w, file);
            &&& whole.watch == second.watch
            &&& whole.events == first.events + second.events
        }),
{
    let at = w.source->0.position as int;
    let line = line_len(w.source->0.fft_size);
    let first = follow(w, file.take(part));
    let again = Watch { phase: w.phase, ..first.watch };
    law_follow_forwards_all_lines(w, rest, file.take(part));
    law_follow_forwards_all_lines(w, rest, file);
    let a = (part - at) / line;
    let between = at + a * line;
    law_follow_forwards_all_lines(again, rest, file);
    lemma_lines_in_parts(file.skip(at), line, part - at);
    assert(file.skip(at).take(part - at) =~= file.take(part).skip(at));
    assert(file.skip(at).skip(a * line) =~= file.skip(between));
    let b = (file.len() - between) / line;
    assert((a + b) * line == a * line + b * line) by (nonlinear_arith);
    assert(follow(w, file).events =~= first.events + follow(again, file).events);
}

proof fn lemma_lines_in_parts(bytes: Seq<u8>, line: int, part: int)
    requires
        0 < line,
        0 <= part <= bytes.len(),
    ensures
        ({
            let a = part / line;
            let b = (bytes.len() - a * line) / line;
            &&& 0 <= a * line <= part
            &&& bytes.len() as int / line == a + b
            &&& line_events(bytes, line) == line_events(bytes.take(part), line) + line_events(
                bytes.skip(a * line),
                line,
            )
        }),
    decreases part,
{
    if part < line {
        vstd::arithmetic::div_mod::lemma_basic_div(part, line);
        assert(0 * line == 0);
        assert(line_events(bytes.take(part), line) =~= Seq::empty());
        assert(bytes.skip(0) =~= bytes);
        assert(line_events(bytes, line) =~= line_events(bytes.take(part), line) + line_events(
            bytes.skip(0),
            line,
        ));
    } else {
        let rest = bytes.skip(line);
        lemma_lines_in_parts(rest, line, part - line);
        lemma_first_line(bytes, line);
        lemma_first_line(bytes.take(part), line);
        let a = (part - line) / line;
        assert(bytes.take(part).take(line) =~= bytes.take(line));
        assert(bytes.take(part).skip(line) =~= rest.take(part - line));
        assert(part / line == 1 + a);
        assert((1 + a) * line == line + a * line) by (nonlinear_arith);
        assert(rest.skip(a * line) =~= bytes.skip((1 + a) * line));
        assert(line_events(bytes, line) =~= line_events(bytes.take(part), line) + line_events(
            bytes.skip((1 + a) * line),
            line,
        ));
    }
}

/// What a waiting watch does when it is told that `file`, which it follows, was
/// written, if each of its requests is answered from `file`.
pub open spec fn look(w: Watch, file: Seq<u8>) -> Outcome {
    let ops = Ops { create: false, write: true, close_write: false };
    let change = on_change(w, ops, Found::Observation(w.observation));
    let end = follow(change.watch, file);
    Outcome { events: change.events + end.events, ..end }
}

/// What a waiting watch does with a growing file in the end, if it is told of a
/// write each time that the file has one of `sizes`.
pub open spec fn looks(w: Watch, file: Seq<u8>, sizes: Seq<int>) -> Outcome
    decreases sizes.len(),
{
    if sizes.len() == 0 {
        Outcome { watch: w, events: Seq::empty() }
    } else {
        let before = looks(w, file, sizes.drop_last());
        let end = look(before.watch, file.take(sizes.last()));
        Outcome { events: before.events + end.events, ..end }
    }
}

/// `sizes` never shrink, and lie between `least` and `most`.
pub open spec fn growing(sizes: Seq<int>, least: int, most: int) -> bool {
    &&& forall|i: int| 0 <= i < sizes.len() ==> least <= #[trigger] sizes[i] <= most
    &&& forall|i: int, j: int|
        0 <= i <= j < sizes.len() ==> #[trigger] sizes[i] <= #[trigger] sizes[j]
}

/// However a file grows and whenever the watch is told, each line is forwarded
/// once and in order as soon as it is there in full at a look: what was forwarded
/// in the end, and where the watch then stands, depends on the last size alone.
pub proof fn law_growth_does_not_matter(w: Watch, file: Seq<u8>, sizes: Seq<int>)
    requires
        w.wf(),
        requested(w) is Change,
        w.source is Some,
        sizes.len() > 0,
        growing(sizes, w.source->0.position as int, file.len() as int),
        file.len() <= u64::MAX,
    ensures
        ({
            let at = w.source->0.position as int;
            let line = line_len(w.source->0.fft_size);
            let lines = (sizes.last() - at) / line;
            let end = looks(w, file, sizes);
            &&& crate::event::apart_from_logs(end.events) == line_events(
                file.subrange(at, sizes.last()),
                line,
            )
            &&& end.watch == stopped_after(w, lines)
            &&& end.watch.wf()
        }),
    decreases sizes.len(),
{
    let at = w.source->0.position as int;
    let line = line_len(w.source->0.fft_size);
    let last = sizes.last();
    let earlier = sizes.drop_last();
    let before = looks(w, file, earlier);
    let from = if earlier.len() > 0 {
        earlier.last()
    } else {
        at
    };
    let a = (from - at) / line;
    if earlier.len() > 0 {
        assert(growing(earlier, at, file.len() as int)) by {
            assert forall|i: int| 0 <= i < earlier.len() implies at <= #[trigger] earlier[i]
                <= file.len() by {
                assert(earlier[i] == sizes[i]);
            }
            assert forall|i: int, j: int| 0 <= i <= j < earlier.len() implies #[trigger] earlier[i]
                <= #[trigger] earlier[j] by {
                assert(earlier[i] == sizes[i] && earlier[j] == sizes[j]);
            }
        }
        law_growth_does_not_matter(w, file, earlier);
        assert(from == sizes[sizes.len() - 2] && last == sizes[sizes.len() - 1]);
    } else {
        vstd::arithmetic::div_mod::lemma_basic_div(0, line);
        assert(0 * line == 0);
        assert(line_events(file.subrange(at, from), line) =~= Seq::empty());
        assert(crate::event::apart_from_logs(before.events) =~= Seq::empty());
        assert(before.watch == stopped_after(w, 0));
    }
    let whole = file.subrange(at, last);
    lemma_lines_in_parts(whole, line, from - at);
    assert(whole.take(from - at) =~= file.subrange(at, from));
    let rest = Rest { id: w.observation, write: true, close: false };
    let now = Watch { phase: Phase::Measuring(rest), ..before.watch };
    let part = file.take(last);
    law_follow_forwards_all_lines(now, rest, part);
    let fresh = line_events(part.skip(at + a * line), line);
    assert(part.skip(at + a * line) =~= whole.skip(a * line));
    let end = look(before.watch, part);
    assert(end.events =~= seq![data_note(w.observation)] + fresh);
    lemma_without_logs(seq![data_note(w.observation)], fresh);
    lemma_only_lines(part.skip(at + a * line), line, fresh.len() as int);
    assert(fresh.take(fresh.len() as int) =~= fresh);
    assert(crate::event::apart_from_logs(seq![data_note(w.observation)]) =~= Seq::empty()) by {
        let note = seq![data_note(w.observation)];
        assert(note.drop_last() =~= Seq::empty());
        assert(crate::event::apart_from_logs(note.drop_last()) =~= Seq::empty());
    }
    lemma_without_logs(before.events, end.events);
    let b = (last - (at + a * line)) / line;
    assert((a + b) * line == a * line + b * line) by (nonlinear_arith);
    assert(crate::event::apart_from_logs(looks(w, file, sizes).events) =~= line_events(
        whole,
        line,
    ));
}

/// A waiting watch that has read `lines` lines more than `w`.
pub open spec fn stopped_after(w: Watch, lines: int) -> Watch {
    let source = Source {
        fft_size: w.source->0.fft_size,
        position: (w.source->0.position + lines * line_len(w.source->0.fft_size)) as u64,
    };
    Watch { source: Some(source), phase: Phase::Idle, ..w }
}

/// Two ways of growing to the same size lead to the same lines and the same
/// state.
pub proof fn law_growth_ends_alike(w: Watch, file: Seq<u8>, one: Seq<int>, other: Seq<int>)
    requires
        w.wf(),
        requested(w) is Change,
        w.source is Some,
        one.len() > 0,
        other.len() > 0,
        one.last() == other.last(),
        growing(one, w.source->0.position as int, file.len() as int),
        growing(other, w.source->0.position as int, file.len() as int),
        file.len() <= u64::MAX,
    ensures
        crate::event::apart_from_logs(looks(w, file, one).events)
            == crate::event::apart_from_logs(looks(w, file, other).events),
        looks(w, file, one).watch == looks(w, file, other).watch,
{
    law_growth_does_not_matter(w, file, one);
    law_growth_does_not_matter(w, file, other);
}

proof fn lemma_without_logs(a: Seq<crate::event::EventView>, b: Seq<crate::event::EventView>)
    ensures
        crate::event::apart_from_logs(a + b) == crate::event::apart_from_logs(a)
            + crate::event::apart_from_logs(b),
    decreases b.len(),
{
    if b.len() == 0 {
        assert(a + b =~= a);
        assert(crate::event::apart_from_logs(a) + b =~= crate::event::apart_from_logs(a));
    } else {
        lemma_without_logs(a, b.drop_last());
        assert((a + b).drop_last() =~= a + b.drop_last());
        assert((a + b).last() == b.last());
        assert(crate::event::apart_from_logs(a + b) =~= crate::event::apart_from_logs(a)
            + crate::event::apart_from_logs(b));
    }
}

/// Forwarded lines are no log messages.
proof fn lemma_only_lines(bytes: Seq<u8>, line: int, n: int)
    requires
        0 <= n <= line_events(bytes, line).len(),
    ensures
        crate::event::apart_from_logs(line_events(bytes, line).take(n)) == line_events(
            bytes,
            line,
        ).take(n),
    decreases n,
{
    let some = line_events(bytes, line).take(n);
    if n > 0 {
        lemma_only_lines(bytes, line, n - 1);
        assert(some.drop_last() =~= line_events(bytes, line).take(n - 1));
        assert(some.last() is WaterfallData);
        assert(some.drop_last().push(some.last()) =~= some);
    }
}

/// The state of a watch when the start of the opened `file` has been read, if
/// each of its requests is answered from `file`.
pub open spec fn read_start(w: Watch, file: Seq<u8>) -> Outcome {
    let size = file.len() as u64;
    let w1 = on_open(w, true).watch;
    let w2 = on_size(w1, size).watch;
    let w3 = on_bytes(w2, file.take(4)).watch;
    let w4 = on_size(w3, size).watch;
    on_bytes(w4, file.subrange(4, 4 + 4 * w4.phase->ReadTable_1))
}

/// A new file that starts with a number of frequencies and holds as many is
/// announced with exactly these frequencies, for the observation in its name,
/// and is then followed from the first line on.
pub proof fn law_start_is_announced(w: Watch, rest: Rest, file: Seq<u8>)
    requires
        w.wf(),
        w.phase == Phase::Opening(rest),
        4 <= file.len() <= u64::MAX,
        line_len(crate::single::truncated(crate::samples::word(file))) <= file.len(),
    ensures
        ({
            let n = crate::single::truncated(crate::samples::word(file));
            let start = read_start(w, file);
            &&& start.events.len() >= 1
            &&& start.events[0] == crate::event::EventView::WaterfallCreated(
                w.observation,
                crate::samples::words(file.subrange(4, line_len(n))),
            )
            &&& crate::samples::words(file.subrange(4, line_len(n))).len() == n
            &&& start.watch.source == Some(
                Source { fft_size: n, position: line_len(n) as u64 },
            )
        }),
{
    let n = crate::single::truncated(crate::samples::word(file));
    let head = file.take(4);
    assert(head[0] == file[0] && head[1] == file[1] && head[2] == file[2] && head[3] == file[3]);
    assert(crate::samples::word(head) == crate::samples::word(file));
    let size = file.len() as u64;
    let w1 = on_open(w, true).watch;
    let w2 = on_size(w1, size).watch;
    let w3 = on_bytes(w2, head).watch;
    let w4 = on_size(w3, size).watch;
    assert(w4.phase == Phase::ReadTable(rest, n));
}

/// A file that is created, written and perhaps closed in one change is forwarded
/// as a whole: its frequencies, then each line that is there in full, then its
/// end if it was closed, all for the observation in its name. Before the lines and
/// before the end it is noted that they come.
pub proof fn law_whole_file_is_forwarded(w: Watch, id: u64, close: bool, file: Seq<u8>)
    requires
        w.wf(),
        requested(w) is Change,
        4 <= file.len() <= u64::MAX,
        line_len(crate::single::truncated(crate::samples::word(file))) <= file.len(),
    ensures
        ({
            let line = line_len(crate::single::truncated(crate::samples::word(file)));
            let ops = Ops { create: true, write: true, close_write: close };
            let change = on_change(w, ops, Found::Observation(id));
            let start = read_start(change.watch, file);
            let end = follow(start.watch, file);
            &&& requested(change.watch) is Open
            &&& change.events + start.events + end.events == seq![
                crate::event::EventView::WaterfallCreated(
                    id,
                    crate::samples::words(file.subrange(4, line)),
                ),
                data_note(id),
            ] + line_events(file.skip(line), line) + if close {
                seq![closed_note(id), crate::event::EventView::WaterfallClosed(id)]
            } else {
                Seq::empty()
            }
            &&& requested(end.watch) is Change
            &&& end.watch.observation == id
        }),
{
    let line = line_len(crate::single::truncated(crate::samples::word(file)));
    let ops = Ops { create: true, write: true, close_write: close };
    let rest = Rest { id, write: true, close };
    let change = on_change(w, ops, Found::Observation(id));
    let start = read_start(change.watch, file);
    law_start_is_announced(change.watch, rest, file);
    vstd::arithmetic::div_mod::lemma_mod_self_0(line);
    law_follow_forwards_all_lines(start.watch, rest, file);
    let end = follow(start.watch, file);
    assert(start.events.len() == 2);
    assert(change.events + start.events + end.events =~= seq![
        crate::event::EventView::WaterfallCreated(
            id,
            crate::samples::words(file.subrange(4, line)),
        ),
        data_note(id),
    ] + line_events(file.skip(line), line) + if close {
        seq![closed_note(id), crate::event::EventView::WaterfallClosed(id)]
    } else {
        Seq::empty()
    });
}

/// A file that is created and then grows to its frequencies and `k` lines is
/// forwarded as these, each line once and in order, whatever its size is when its
/// start is read and whenever the watch is told of a write, if it is told at the
/// end.
pub proof fn law_created_waterfall_is_forwarded(
    w: Watch,
    id: u64,
    file: Seq<u8>,
    first: int,
    sizes: Seq<int>,
    k: int,
)
    requires
        w.wf(),
        requested(w) is Change,
        k >= 0,
        4 <= file.len() <= u64::MAX,
        ({
            let line = line_len(crate::single::truncated(crate::samples::word(file)));
            &&& file.len() == line + k * line
            &&& line <= first <= file.len()
            &&& growing(sizes, line, file.len() as int)
        }),
        sizes.len() > 0,
        sizes.last() == file.len(),
    ensures
        ({
            let line = line_len(crate::single::truncated(crate::samples::word(file)));
            let ops = Ops { create: true, write: false, close_write: false };
            let change = on_change(w, ops, Found::Observation(id));
            let start = read_start(change.watch, file.take(first));
            let end = looks(start.watch, file, sizes);
            let lines = line_events(file.skip(line), line);
            &&& requested(change.watch) is Open
            &&& crate::event::apart_from_logs(change.events + start.events + end.events) == seq![
                crate::event::EventView::WaterfallCreated(
                    id,
                    crate::samples::words(file.subrange(4, line)),
                ),
            ] + lines
            &&& lines.len() == k
            &&& requested(end.watch) is Change
            &&& end.watch.source->0.position == file.len()
        }),
{
    let line = line_len(crate::single::truncated(crate::samples::word(file)));
    let ops = Ops { create: true, write: false, close_write: false };
    let rest = Rest { id, write: false, close: false };
    let change = on_change(w, ops, Found::Observation(id));
    let part = file.take(first);
    assert(part[0] == file[0] && part[1] == file[1] && part[2] == file[2] && part[3] == file[3]);
    assert(crate::samples::word(part) == crate::samples::word(file));
    let start = read_start(change.watch, part);
    law_start_is_announced(change.watch, rest, part);
    assert(part.subrange(4, line) =~= file.subrange(4, line));
    let announced = seq![
        crate::event::EventView::WaterfallCreated(
            id,
            crate::samples::words(file.subrange(4, line)),
        ),
    ];
    assert(start.events =~= announced);
    vstd::arithmetic::div_mod::lemma_mod_self_0(line);
    law_growth_does_not_matter(start.watch, file, sizes);
    let end = looks(start.watch, file, sizes);
    assert(file.subrange(line, sizes.last()) =~= file.skip(line));
    vstd::arithmetic::div_mod::lemma_div_multiples_vanish(k, line);
    assert(k * line == line * k) by (nonlinear_arith);
    assert(change.events + start.events + end.events =~= announced + end.events);
    lemma_without_logs(announced, end.events);
    assert(announced.drop_last() =~= Seq::empty());
    assert(crate::event::apart_from_logs(announced.drop_last()) =~= Seq::empty());
    assert(crate::event::apart_from_logs(announced) =~= announced);
}

/// Each forwarded line has as many samples as its waterfall has frequencies,
/// and belongs to the observation that was announced last.
pub proof fn law_lines_are_whole(w: Watch, bytes: Seq<u8>)
    requires
        w.wf(),
        w.phase is ReadLine,
        bytes.len() <= u64::MAX,
        requested(w) == Request::Bytes(bytes.len() as u64),
    ensures
        on_bytes(w, bytes).events.len() == 1,
        on_bytes(w, bytes).events[0] matches crate::event::EventView::WaterfallData(_, samples)
            && samples.len() == w.source->0.fft_size,
        w.phase->ReadLine_0.id == w.observation,
        on_bytes(w, bytes).watch.observation == w.observation,
{
}

/// A watch never asks for bytes beyond the end of the file that it was told.
pub proof fn law_requests_stay_inside(w: Watch, size: u64)
    requires
        w.wf(),
        requested(w) is Size,
    ensures
        requested(on_size(w, size).watch) matches Request::Bytes(n) ==> match w.phase {
            Phase::AwaitSize(_) => n <= size,
            Phase::AwaitTable(_, _) => 4 + n <= size,
            _ => w.source->0.position + n <= size,
        },
{
}

} // verus!

//! Promises on the following of waterfall files.

use crate::event::{EventView, Level};
use crate::names::Found;
use crate::samples::{word, words};
use crate::text::decimal;
use crate::waterfall::{
    acts_on, line_event, line_events, line_len, on_bytes, on_change, on_notice, on_open, on_size,
    requested, Fault, Ops, Outcome, Phase, Request, Rest, Source, Watch,
};
use vstd::prelude::*;

verus! {

/// The end of a waterfall is reported for whichever observation it is, the
/// followed one included: a change that only closes a file is noted and sent,
/// and leaves the watch as it was.
pub proof fn law_end_is_reported(w: Watch, id: u64)
    requires
        w.phase == Phase::Idle,
    ensures
        ({
            let ops = Ops { create: false, write: false, close_write: true };
            let end = on_change(w, ops, Found::Observation(id));
            &&& end.watch == w
            &&& end.events == seq![
                EventView::Log(
                    Level::Info,
                    "Closed waterfall for observation "@ + decimal(id as nat),
                ),
                EventView::WaterfallClosed(id),
            ]
        }),
{
}

/// What the owner of a watch can report while a change is carried through.
pub enum Reply {
    Opened(bool),
    Size(u64),
    Bytes(Seq<u8>),
}

/// Whether `reply` is what `w` asks for.
pub open spec fn answers(w: Watch, reply: Reply) -> bool {
    match reply {
        Reply::Opened(_) => requested(w) is Open,
        Reply::Size(_) => requested(w) is Size,
        Reply::Bytes(bytes) => bytes.len() <= u64::MAX && requested(w) == Request::Bytes(
            bytes.len() as u64,
        ),
    }
}

/// What a reply leads to.
pub open spec fn replied(w: Watch, reply: Reply) -> Outcome {
    match reply {
        Reply::Opened(success) => on_open(w, success),
        Reply::Size(size) => on_size(w, size),
        Reply::Bytes(bytes) => on_bytes(w, bytes),
    }
}

/// What a change leads to after some replies.
pub open spec fn carried(w: Watch, ops: Ops, id: u64, replies: Seq<Reply>) -> Outcome
    decreases replies.len(),
{
    if replies.len() == 0 {
        on_change(w, ops, Found::Observation(id))
    } else {
        let before = carried(w, ops, id, replies.drop_last());
        let next = replied(before.watch, replies.last());
        Outcome { watch: next.watch, events: before.events + next.events }
    }
}

/// Each reply is what was asked for.
pub open spec fn each_asked_for(w: Watch, ops: Ops, id: u64, replies: Seq<Reply>) -> bool
    decreases replies.len(),
{
    replies.len() > 0 ==> {
        &&& each_asked_for(w, ops, id, replies.drop_last())
        &&& answers(carried(w, ops, id, replies.drop_last()).watch, replies.last())
    }
}

/// What is left to do in a phase.
pub open spec fn left_to_do(phase: Phase) -> Option<Rest> {
    match phase {
        Phase::Opening(rest) => Some(rest),
        Phase::AwaitSize(rest) => Some(rest),
        Phase::ReadSize(rest) => Some(rest),
        Phase::AwaitTable(rest, _) => Some(rest),
        Phase::ReadTable(rest, _) => Some(rest),
        Phase::Measuring(rest) => Some(rest),
        Phase::ReadLine(rest) => Some(rest),
        _ => None,
    }
}

/// A change with a close that is carried through without a fault ends with the
/// report of that close, and that is the only one; whether or not the file is the
/// followed one, and whatever else happened to it. Without a close there is no
/// such report, and before the end neither.
pub proof fn law_each_close_is_reported_once(w: Watch, ops: Ops, id: u64, replies: Seq<Reply>)
    requires
        w.phase == Phase::Idle,
        each_asked_for(w, ops, id, replies),
    ensures
        ({
            let end = carried(w, ops, id, replies);
            let last = end.events.len() - 1;
            &&& end.watch.phase == Phase::Idle && ops.close_write ==> {
                &&& last >= 1
                &&& end.events[last] == EventView::WaterfallClosed(id)
                &&& end.events[last - 1] == EventView::Log(
                    Level::Info,
                    "Closed waterfall for observation "@ + decimal(id as nat),
                )
            }
            &&& forall|i: int|
                0 <= i <= last && (#[trigger] end.events[i]) is WaterfallClosed ==> {
                    &&& ops.close_write
                    &&& end.watch.phase == Phase::Idle
                    &&& i == last
                }
        }),
        carried(w, ops, id, replies).watch.phase != Phase::Idle && !(carried(
            w,
            ops,
            id,
            replies,
        ).watch.phase is Halted) ==> left_to_do(carried(w, ops, id, replies).watch.phase) == Some(
            Rest { id, write: ops.write, close: ops.close_write },
        ),
    decreases replies.len(),
{
    if replies.len() > 0 {
        let earlier = replies.drop_last();
        law_each_close_is_reported_once(w, ops, id, earlier);
        let before = carried(w, ops, id, earlier);
        let next = replied(before.watch, replies.last());
        let end = carried(w, ops, id, replies);
        assert(end.events == before.events + next.events);
        assert forall|i: int|
            0 <= i < end.events.len() && (#[trigger] end.events[i]) is WaterfallClosed implies {
            &&& ops.close_write
            &&& end.watch.phase == Phase::Idle
            &&& i == end.events.len() - 1
        } by {
            if i < before.events.len() {
                assert(before.events[i] is WaterfallClosed);
            } else {
                assert(next.events[i - before.events.len()] is WaterfallClosed);
            }
        }
    }
}

/// A write to the followed file is carried through to its end: where the change
/// ends without a fault, the owner has just said that less than a whole line is
/// left unread.
pub proof fn law_no_line_is_left(w: Watch, ops: Ops, id: u64, replies: Seq<Reply>)
    requires
        w.phase == Phase::Idle,
        ops.write,
        each_asked_for(w, ops, id, replies),
    ensures
        carried(w, ops, id, replies).watch.observation == (if ops.create {
            id
        } else {
            w.observation
        }),
        carried(w, ops, id, replies).watch.phase == Phase::Idle && carried(
            w,
            ops,
            id,
            replies,
        ).watch.source is Some && carried(w, ops, id, replies).watch.observation == id ==> {
            let source = carried(w, ops, id, replies).watch.source->0;
            &&& replies.len() > 0
            &&& replies.last() matches Reply::Size(size) && source.position <= size
                < source.position + 4 + 4 * source.fft_size
        },
    decreases replies.len(),
{
    law_each_close_is_reported_once(w, ops, id, replies);
    if replies.len() > 0 {
        law_each_close_is_reported_once(w, ops, id, replies.drop_last());
        law_no_line_is_left(w, ops, id, replies.drop_last());
    }
}

/// A change by a creation takes up the new observation and asks for the file,
/// before anything else; the followed file stays until the new one is read.
pub proof fn law_creation_is_taken_up(w: Watch, ops: Ops, id: u64)
    requires
        ops.create,
    ensures
        ({
            let next = on_change(w, ops, Found::Observation(id));
            &&& next.events.len() == 0
            &&& next.watch.observation == id
            &&& next.watch.source == w.source
            &&& requested(next.watch) is Open
            &&& requested(on_open(next.watch, true).watch) is Size
            &&& on_open(next.watch, true).events.len() == 0
            &&& on_open(next.watch, true).watch.source == w.source
        }),
{
}

/// A new file that cannot be opened changes nothing but the observation: the rest
/// of the change goes as if the file had only been written or closed.
pub proof fn law_failed_opening(w: Watch, ops: Ops, id: u64)
    requires
        ops.create,
        w.phase == Phase::Idle,
    ensures
        ({
            let next = on_open(on_change(w, ops, Found::Observation(id)).watch, false);
            let other = Ops { create: false, ..ops };
            next == on_change(Watch { observation: id, ..w }, other, Found::Observation(id))
        }),
{
}

/// A write is looked into exactly if a file is followed and the write is to it.
/// One to another file is only warned of, and without a followed file nothing
/// happens.
pub proof fn law_writes(w: Watch, id: u64)
    requires
        w.phase == Phase::Idle,
    ensures
        ({
            let ops = Ops { create: false, write: true, close_write: false };
            let next = on_change(w, ops, Found::Observation(id));
            if w.source is None {
                next.watch == w && next.events.len() == 0
            } else if id == w.observation {
                &&& requested(next.watch) is Size
                &&& next.watch.source == w.source
                &&& next.watch.observation == w.observation
                &&& next.events == seq![
                    EventView::Log(
                        Level::Info,
                        "New waterfall data for observation "@ + decimal(id as nat),
                    ),
                ]
            } else {
                &&& next.watch == w
                &&& next.events == seq![
                    EventView::Log(
                        Level::Warn,
                        "Waterfall doesn't match last observarion "@ + decimal(id as nat) + " != "@
                            + decimal(w.observation as nat),
                    ),
                ]
            }
        }),
{
}

/// A close does not change what else a change does: it adds its report at the
/// end of those changes that are over at once.
pub proof fn law_close_comes_last(w: Watch, id: u64, write: bool)
    requires
        w.phase == Phase::Idle,
        !(write && w.source is Some && id == w.observation),
    ensures
        ({
            let open = on_change(
                w,
                Ops { create: false, write, close_write: false },
                Found::Observation(id),
            );
            let closed = on_change(
                w,
                Ops { create: false, write, close_write: true },
                Found::Observation(id),
            );
            &&& closed.watch == open.watch
            &&& closed.watch == w
            &&& closed.events == open.events + seq![
                EventView::Log(
                    Level::Info,
                    "Closed waterfall for observation "@ + decimal(id as nat),
                ),
                EventView::WaterfallClosed(id),
            ]
        }),
{
    let open = on_change(
        w,
        Ops { create: false, write, close_write: false },
        Found::Observation(id),
    );
    let closed = on_change(
        w,
        Ops { create: false, write, close_write: true },
        Found::Observation(id),
    );
    assert(closed.events =~= open.events + seq![
        EventView::Log(Level::Info, "Closed waterfall for observation "@ + decimal(id as nat)),
        EventView::WaterfallClosed(id),
    ]);
}

/// Other files and changes that are none to act on leave the watch alone. Only a
/// change to act on can stop it, by a file name whose number cannot be read.
pub proof fn law_other_changes(w: Watch, ops: Ops)
    requires
        w.phase == Phase::Idle,
    ensures
        on_change(w, ops, Found::Nothing).watch == w,
        on_change(w, ops, Found::Nothing).events.len() == 0,
        on_change(w, ops, Found::Unreadable).events.len() == 0,
        on_change(w, ops, Found::Unreadable).watch.source == w.source,
        on_change(w, ops, Found::Unreadable).watch.observation == w.observation,
        (requested(on_change(w, ops, Found::Unreadable).watch) == Request::Halt(Fault::Unreadable))
            <==> (ops.create || ops.close_write || (ops.write && w.source is Some)),
        on_change(w, ops, Found::Unreadable).watch == w <==> !acts_on(w, ops),
        acts_on(w, ops) <==> ops.create || ops.close_write || (ops.write && w.source is Some),
{
}

/// A created file is noted by its path before anything else, whatever it is. No
/// other change is, and nothing else depends on the path.
pub proof fn law_created_files_are_noted(w: Watch, ops: Ops, path: Seq<char>, found: Found)
    ensures
        ({
            let plain = on_change(w, ops, found);
            let noted = on_notice(w, ops, Some(path), found);
            &&& noted.watch == plain.watch
            &&& ops.create ==> noted.events == seq![
                EventView::Log(Level::Info, "File created: "@ + path),
            ] + plain.events
            &&& !ops.create ==> noted.events == plain.events
            &&& on_notice(w, ops, None, found) == plain
        }),
{
}

/// The size of a new file is asked for until the file holds its start, and then
/// that start is read: the number of frequencies, and so many frequencies.
pub proof fn law_start_is_awaited(w: Watch, rest: Rest, n: u64, size: u64)
    requires
        4 + 4 * n <= u64::MAX,
    ensures
        ({
            let counting = on_size(Watch { phase: Phase::AwaitSize(rest), ..w }, size);
            &&& counting.events.len() == 0
            &&& size < 4 ==> requested(counting.watch) is Size
            &&& size >= 4 ==> requested(counting.watch) == Request::Bytes(4)
            &&& counting.watch.source == w.source
        }),
        ({
            let tabling = on_size(Watch { phase: Phase::AwaitTable(rest, n), ..w }, size);
            &&& tabling.events.len() == 0
            &&& size < 4 + 4 * n ==> requested(tabling.watch) is Size
            &&& size >= 4 + 4 * n ==> requested(tabling.watch) == Request::Bytes((4 * n) as u64)
            &&& tabling.watch.source == w.source
        }),
{
}

/// A line is read exactly if it is there in full, and a file that has become
/// shorter than what was read of it stops the watch.
pub proof fn law_line_is_awaited(w: Watch, rest: Rest, size: u64)
    requires
        w.wf(),
        w.phase == Phase::Measuring(rest),
    ensures
        ({
            let source = w.source->0;
            let next = on_size(w, size);
            let unread = size - source.position;
            &&& next.watch.source == w.source
            &&& unread < 0 ==> requested(next.watch) == Request::Halt(Fault::Shrunk)
            &&& unread >= 4 + 4 * source.fft_size ==> requested(next.watch) == Request::Bytes(
                (4 + 4 * source.fft_size) as u64,
            )
            &&& 0 <= unread < 4 + 4 * source.fft_size ==> requested(next.watch) is Change
            &&& unread < 0 || unread >= 4 + 4 * source.fft_size ==> next.events.len() == 0
        }),
{
}

/// The number in four bytes of `bytes`, the least significant first.
pub open spec fn number_at(bytes: Seq<u8>, at: int) -> int {
    bytes[at] + 256 * (bytes[at + 1] + 256 * (bytes[at + 2] + 256 * bytes[at + 3]))
}

/// A number is read back from its bytes, and only the first four bytes count.
pub proof fn law_word_reads_back(x: u32, more: Seq<u8>)
    ensures
        ({
            let bytes = seq![
                (x % 256) as u8,
                (x / 256 % 256) as u8,
                (x / 65_536 % 256) as u8,
                (x / 16_777_216) as u8,
            ];
            word(bytes + more) == x
        }),
{
    assert(x == x % 256 + 256 * (x / 256 % 256) + 65_536 * (x / 65_536 % 256) + 16_777_216 * (x
        / 16_777_216)) by (bit_vector);
    assert(x / 16_777_216 < 256) by (bit_vector);
}

/// The numbers in a byte sequence follow each other, four bytes each, and only an
/// incomplete one at the end is left out.
pub proof fn law_words_follow_each_other(bytes: Seq<u8>)
    ensures
        4 * words(bytes).len() <= bytes.len() < 4 * words(bytes).len() + 4,
        forall|i: int| 0 <= i < words(bytes).len() ==> #[trigger] words(bytes)[i] == number_at(
            bytes,
            4 * i,
        ),
{
    assert forall|i: int| 0 <= i < words(bytes).len() implies #[trigger] words(bytes)[i]
        == number_at(bytes, 4 * i) by {
        let group = bytes.skip(4 * i);
        assert(group[0] == bytes[4 * i] && group[1] == bytes[4 * i + 1] && group[2] == bytes[4 * i
            + 2] && group[3] == bytes[4 * i + 3]);
    }
}

/// A line of a waterfall is sent as its first number, the seconds, and its other
/// numbers, the samples, all of them and in their order.
pub proof fn law_line_has_its_numbers(bytes: Seq<u8>, n: nat)
    requires
        bytes.len() == 4 + 4 * n,
    ensures
        line_event(bytes) matches EventView::WaterfallData(seconds, samples) && {
            &&& seconds == number_at(bytes, 0)
            &&& samples.len() == n
            &&& forall|j: int| 0 <= j < n ==> #[trigger] samples[j] == number_at(bytes, 4 + 4 * j)
        },
{
    law_words_follow_each_other(bytes);
    let samples = words(bytes).drop_first();
    assert forall|j: int| 0 <= j < n implies #[trigger] samples[j] == number_at(bytes, 4 + 4 * j) by {
        assert(samples[j] == words(bytes)[j + 1]);
    }
}

/// A line that was read is sent as that line, once, and the next bytes are those
/// behind it.
pub proof fn law_read_line_is_sent(w: Watch, rest: Rest, bytes: Seq<u8>)
    requires
        w.wf(),
        w.phase == Phase::ReadLine(rest),
        bytes.len() == 4 + 4 * w.source->0.fft_size,
    ensures
        ({
            let source = w.source->0;
            let next = on_bytes(w, bytes);
            &&& next.events == seq![line_event(bytes)]
            &&& next.watch.source == Some(
                Source {
                    fft_size: source.fft_size,
                    position: (source.position + bytes.len()) as u64,
                },
            )
            &&& next.watch.observation == w.observation
            &&& requested(next.watch) is Size
            &&& left_to_do(next.watch.phase) == Some(rest)
        }),
{
    assert(on_bytes(w, bytes).events =~= seq![line_event(bytes)]);
}

/// Bytes hold as many lines as fit, one behind the other, and each is sent with
/// its own numbers.
pub proof fn law_lines_follow_each_other(bytes: Seq<u8>, n: u64, i: int)
    ensures
        ({
            let line = 4 + 4 * n;
            let lines = line_events(bytes, line_len(n));
            &&& lines.len() * line <= bytes.len() < (lines.len() + 1) * line
            &&& 0 <= i < lines.len() ==> {
                &&& 0 <= i * line
                &&& i * line + line <= bytes.len()
                &&& lines[i] == line_event(bytes.subrange(i * line, i * line + line))
            }
        }),
{
    let line = 4 + 4 * n;
    let lines = line_events(bytes, line_len(n));
    let len = bytes.len() as int;
    vstd::arithmetic::div_mod::lemma_fundamental_div_mod(len, line);
    vstd::arithmetic::div_mod::lemma_mod_bound(len, line);
    let count = len / line;
    assert(0 <= count) by {
        vstd::arithmetic::div_mod::lemma_div_pos_is_pos(len, line);
    }
    assert(count * line <= len < (count + 1) * line) by (nonlinear_arith)
        requires
            len == line * count + len % line,
            0 <= len % line < line,
    ;
    if 0 <= i < count {
        assert(0 <= i * line && i * line + line <= count * line) by (nonlinear_arith)
            requires
                0 <= i,
                i + 1 <= count,
                line > 0,
        ;
    }
}

/// The frequencies of a new file are announced as they stand in it, for its
/// observation, and from then on it is followed from behind them; then the rest
/// of the change goes on.
pub proof fn law_frequencies_are_announced(w: Watch, rest: Rest, n: u64, bytes: Seq<u8>)
    requires
        w.phase == Phase::ReadTable(rest, n),
        bytes.len() == 4 * n,
        4 + 4 * n <= u64::MAX,
    ensures
        ({
            let next = on_bytes(w, bytes);
            let ops = Ops { create: false, write: rest.write, close_write: rest.close };
            let source = Source { fft_size: n, position: (4 + 4 * n) as u64 };
            let followed = Watch { phase: Phase::Idle, source: Some(source), ..w };
            let later = on_change(followed, ops, Found::Observation(rest.id));
            &&& next.events.len() == 1 + later.events.len()
            &&& next.events.skip(1) =~= later.events
            &&& next.watch == later.watch
            &&& next.events[0] matches EventView::WaterfallCreated(id, frequencies) && {
                &&& id == w.observation
                &&& frequencies.len() == n
                &&& forall|j: int|
                    0 <= j < n ==> #[trigger] frequencies[j] == number_at(bytes, 4 * j)
            }
        }),
{
    law_words_follow_each_other(bytes);
    let next = on_bytes(w, bytes);
    let ops = Ops { create: false, write: rest.write, close_write: rest.close };
    let source = Source { fft_size: n, position: (4 + 4 * n) as u64 };
    let followed = Watch { phase: Phase::Idle, source: Some(source), ..w };
    let later = on_change(followed, ops, Found::Observation(rest.id));
    assert(next.events.skip(1) =~= later.events);
}

/// A number of frequencies that cannot be counted in bytes stops the watch, and
/// any other is waited for.
pub proof fn law_counted_frequencies(w: Watch, rest: Rest, bytes: Seq<u8>)
    requires
        w.phase == Phase::ReadSize(rest),
        bytes.len() == 4,
    ensures
        ({
            let n = crate::single::truncated(word(bytes));
            let next = on_bytes(w, bytes);
            &&& next.events.len() == 0
            &&& next.watch.source == w.source
            &&& next.watch.observation == w.observation
            &&& 4 + 4 * n > u64::MAX <==> requested(next.watch) == Request::Halt(Fault::Oversized)
            &&& 4 + 4 * n <= u64::MAX ==> next.watch.phase == Phase::AwaitTable(rest, n)
        }),
{
}

} // verus!

//! The latest log messages.

use crate::event::Level;
use crate::time::Timestamp;
use circular_queue::CircularQueue;
use vstd::prelude::*;

verus! {

/// A logged message.
#[derive(Clone, Debug)]
pub struct LogLine {
    pub time: Timestamp,
    pub level: Level,
    pub message: String,
}

/// A `circular_queue::CircularQueue`: it holds up to a fixed number of items.
#[verifier::external_type_specification]
#[verifier::external_body]
#[verifier::reject_recursive_types(T)]
pub struct ExCircularQueue<T>(CircularQueue<T>);

/// The lines in a queue, the oldest first.
pub uninterp spec fn queue_lines(queue: CircularQueue<LogLine>) -> Seq<LogLine>;

/// How many lines a queue can hold.
pub uninterp spec fn queue_capacity(queue: CircularQueue<LogLine>) -> nat;

/// Calls `CircularQueue::with_capacity`: an empty queue for `capacity` items.
/// The memory is taken at once, and a size beyond what can be addressed makes it
/// panic; an item takes less than 64 bytes.
#[verifier::external_body]
fn queue_new(capacity: usize) -> (r: CircularQueue<LogLine>)
    requires
        capacity <= usize::MAX / 128,
    ensures
        queue_lines(r) == Seq::<LogLine>::empty(),
        queue_capacity(r) == capacity,
{
    CircularQueue::with_capacity(capacity)
}

/// Calls `CircularQueue::push`: the item is the newest from now on, and a full
/// queue loses its oldest. A queue without room stays empty.
#[verifier::external_body]
fn queue_push(queue: &mut CircularQueue<LogLine>, line: LogLine)
    ensures
        queue_capacity(*final(queue)) == queue_capacity(*old(queue)),
        queue_lines(*final(queue)) == kept(
            queue_lines(*old(queue)).push(line),
            queue_capacity(*old(queue)),
        ),
{
    queue.push(line);
}

/// Calls `CircularQueue::iter`, which goes from the newest item to the oldest.
#[verifier::external_body]
fn queue_newest_first(queue: &CircularQueue<LogLine>) -> (r: Vec<LogLine>)
    ensures
        r@ == queue_lines(*queue).reverse(),
{
    queue.iter().cloned().collect()
}

/// The last `n` of `lines`.
pub open spec fn kept(lines: Seq<LogLine>, n: nat) -> Seq<LogLine> {
    if lines.len() > n {
        lines.skip(lines.len() - n)
    } else {
        lines
    }
}

/// The latest messages, up to a fixed number.
pub struct LogQueue {
    queue: CircularQueue<LogLine>,
}

impl View for LogQueue {
    type V = Seq<LogLine>;

    /// The messages, the oldest first.
    closed spec fn view(&self) -> Seq<LogLine> {
        queue_lines(self.queue)
    }
}

impl LogQueue {
    /// How many messages there is room for.
    pub closed spec fn capacity(&self) -> nat {
        queue_capacity(self.queue)
    }

    /// An empty queue for `capacity` messages.
    pub fn with_capacity(capacity: usize) -> (r: LogQueue)
        requires
            capacity <= usize::MAX / 128,
        ensures
            r@ == Seq::<LogLine>::empty(),
            r.capacity() == capacity,
    {
        LogQueue { queue: queue_new(capacity) }
    }

    /// Adds a message. The oldest goes where there is no room.
    pub fn push(&mut self, line: LogLine)
        ensures
            final(self)@ == kept(old(self)@.push(line), old(self).capacity()),
            final(self).capacity() == old(self).capacity(),
    {
        queue_push(&mut self.queue, line);
    }

    /// The last `n` messages, or all if there are fewer, the oldest first.
    pub fn latest(&self, n: usize) -> (r: Vec<LogLine>)
        ensures
            r@ == kept(self@, n as nat),
    {
        let mut newest = queue_newest_first(&self.queue);
        newest.truncate(n);
        let ghost cut = newest@;
        let mut r: Vec<LogLine> = Vec::new();
        while newest.len() > 0
            invariant
                newest@.len() + r@.len() == cut.len(),
                newest@ == cut.take(newest@.len() as int),
                forall|j: int| 0 <= j < r@.len() ==> r@[j] == cut[cut.len() - 1 - j],
            decreases newest@.len(),
        {
            match newest.pop() {
                Some(line) => {
                    r.push(line);
                },
                None => {},
            }
            assert(newest@ =~= cut.take(newest@.len() as int));
        }
        assert(r@ =~= kept(self@, n as nat));
        r
    }
}

/// The queue holds the latest of all messages that ever came in: pushing one
/// and keeping what there is room for forgets nothing that still has a place.
pub proof fn law_queue_keeps_latest(all: Seq<LogLine>, line: LogLine, n: nat)
    ensures
        kept(kept(all, n).push(line), n) == kept(all.push(line), n),
        kept(all, n).len() <= n,
{
    assert(kept(kept(all, n).push(line), n) =~= kept(all.push(line), n));
}

} // verus!

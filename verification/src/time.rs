//! Moments in UTC, the time between two of them, and how they are written.

use crate::text::{
    align_right, decimal, decimal_text, explicit_decimal_text, right_aligned, signed_decimal_text,
};
use vstd::prelude::*;

verus! {

/// Nanoseconds in a second.
pub const NANOS: u32 = 1_000_000_000;

/// The first second of the calendar: the start of the year -262143.
pub const FIRST_SECOND: i64 = -8_334_601_228_800;

/// The last second of the calendar: the end of the year 262142.
pub const LAST_SECOND: i64 = 8_210_266_876_799;

/// Seconds in a day.
pub const DAY: i64 = 86_400;

/// A moment: whole seconds since the start of 1970 and the nanoseconds after
/// that second. During a leap second, the nanoseconds of the second before it are
/// counted on.
#[derive(Clone, Copy, Debug, PartialEq, Eq, Structural)]
pub struct Timestamp {
    pub secs: i64,
    pub nanos: u32,
}

impl Timestamp {
    /// The moment lies within the calendar. Only the last second of a minute can
    /// be followed by a leap second.
    pub open spec fn wf(self) -> bool {
        &&& FIRST_SECOND <= self.secs <= LAST_SECOND
        &&& self.nanos < NANOS || (self.nanos < 2 * NANOS && self.secs as int % 60 == 59)
    }

    /// Whether the moment lies within the calendar.
    pub fn valid(self) -> (r: bool)
        ensures
            r == self.wf(),
    {
        FIRST_SECOND <= self.secs && self.secs <= LAST_SECOND && (self.nanos < NANOS || (
        self.nanos < 2 * NANOS && self.second_of_day() % 60 == 59))
    }

    /// The seconds since the start of the day.
    pub open spec fn time_of_day(self) -> int {
        self.secs as int % DAY as int
    }

    fn second_of_day(self) -> (r: i64)
        requires
            FIRST_SECOND <= self.secs <= LAST_SECOND,
        ensures
            r == self.time_of_day(),
            0 <= r < DAY,
    {
        if self.secs >= 0 {
            self.secs % DAY
        } else {
            let back: i64 = (-self.secs) % DAY;
            if back == 0 {
                0
            } else {
                DAY - back
            }
        }
    }

    /// This moment is `other` or comes after it.
    pub open spec fn at_or_after(self, other: Timestamp) -> bool {
        self.secs > other.secs || (self.secs == other.secs && self.nanos >= other.nanos)
    }

    /// Whether this moment is `other` or comes after it.
    pub fn not_before(self, other: Timestamp) -> (r: bool)
        ensures
            r == self.at_or_after(other),
    {
        self.secs > other.secs || (self.secs == other.secs && self.nanos >= other.nanos)
    }
}

/// The leap second that counts between two moments: one at the moment with the
/// earlier time of day makes the way to or from the other a second longer.
pub open spec fn leap(from: Timestamp, to: Timestamp) -> int {
    if to.time_of_day() > from.time_of_day() && from.nanos >= NANOS {
        1
    } else if to.time_of_day() < from.time_of_day() && to.nanos >= NANOS {
        -1
    } else {
        0
    }
}

/// The nanoseconds from `from` to `to`; negative while `to` comes first.
pub open spec fn gap(from: Timestamp, to: Timestamp) -> int {
    (to.secs - from.secs + leap(from, to)) * NANOS + to.nanos - from.nanos
}

/// `n` divided by `d`, cut towards zero.
pub open spec fn quotient(n: int, d: int) -> int {
    if n < 0 {
        -((-n) / d)
    } else {
        n / d
    }
}

/// The whole seconds from `from` to `to`; negative while `to` comes first.
pub open spec fn seconds_between(from: Timestamp, to: Timestamp) -> int {
    quotient(gap(from, to), NANOS as int)
}

/// The distance of two moments as the views show it.
#[derive(Clone, Copy, Debug, PartialEq, Eq, Structural)]
pub struct Countdown {
    /// Whole minutes, with their sign.
    pub minutes: i64,
    /// The whole seconds beyond those minutes, without a sign.
    pub seconds: u64,
    /// Whether the moment counted down to has come.
    pub reached: bool,
}

/// What is to be shown at `now` of a moment `start`.
pub open spec fn countdown_spec(start: Timestamp, now: Timestamp) -> Countdown {
    let secs = seconds_between(start, now);
    Countdown {
        minutes: quotient(secs, 60) as i64,
        seconds: (if secs < 0 {
            (-secs) % 60
        } else {
            secs % 60
        }) as u64,
        reached: gap(start, now) >= 0,
    }
}

/// Counts from `start` to `now`.
pub fn countdown(start: Timestamp, now: Timestamp) -> (r: Countdown)
    requires
        start.wf(),
        now.wf(),
    ensures
        r == countdown_spec(start, now),
        r.minutes == quotient(seconds_between(start, now), 60),
        r.seconds < 60,
{
    let from: i64 = start.second_of_day();
    let to: i64 = now.second_of_day();
    let mut whole: i64 = now.secs - start.secs;
    if to > from && start.nanos >= NANOS {
        whole = whole + 1;
    } else if to < from && now.nanos >= NANOS {
        whole = whole - 1;
    }
    let nanos: i128 = whole as i128 * NANOS as i128 + now.nanos as i128 - start.nanos as i128;
    assert(nanos == gap(start, now));
    let reached: bool = nanos >= 0;
    let secs: i64 = if nanos < 0 {
        -(((-nanos) / NANOS as i128) as i64)
    } else {
        (nanos / NANOS as i128) as i64
    };
    assert(secs == seconds_between(start, now));
    if secs < 0 {
        Countdown { minutes: -((-secs) / 60), seconds: ((-secs) % 60) as u64, reached }
    } else {
        Countdown { minutes: secs / 60, seconds: (secs % 60) as u64, reached }
    }
}

/// A minute and second count: `minutes`, a prime, the seconds in two places and
/// a double prime.
pub open spec fn clock(minutes: Seq<char>, seconds: nat) -> Seq<char> {
    minutes + "'"@ + right_aligned(decimal(seconds), 2) + "\""@
}

/// Writes the count with the sign of the minutes always shown, in a field of
/// `width` characters.
pub fn signed_clock(c: Countdown, width: usize) -> (r: String)
    ensures
        r@ == clock(
            right_aligned(crate::text::explicit_decimal(c.minutes as int), width as nat),
            c.seconds as nat,
        ),
{
    let mut r = align_right(explicit_decimal_text(c.minutes).as_str(), width);
    append_seconds(&mut r, c.seconds);
    r
}

/// Writes the count with the minutes in a field of `width` characters.
pub fn plain_clock(c: Countdown, width: usize) -> (r: String)
    ensures
        r@ == clock(
            right_aligned(crate::text::signed_decimal(c.minutes as int), width as nat),
            c.seconds as nat,
        ),
{
    let mut r = align_right(signed_decimal_text(c.minutes).as_str(), width);
    append_seconds(&mut r, c.seconds);
    r
}

fn append_seconds(text: &mut String, seconds: u64)
    ensures
        final(text)@ == clock(old(text)@, seconds as nat),
{
    text.append("'");
    let digits = align_right(decimal_text(seconds).as_str(), 2);
    text.append(digits.as_str());
    text.append("\"");
}

/// What `chrono` writes for the moment `secs` and `nanos` by `pattern`.
pub uninterp spec fn chrono_format(secs: i64, nanos: u32, pattern: Seq<char>) -> Seq<char>;

/// What `chrono` writes for the moment `secs` and `nanos` by default.
pub uninterp spec fn chrono_display(secs: i64, nanos: u32) -> Seq<char>;

/// The pattern of the dates in the job view.
pub open spec fn date_pattern() -> Seq<char> {
    "%Y-%m-%d %H:%M:%S"@
}

/// Calls `chrono::DateTime::<Utc>::format` and writes the result out. The text
/// depends on the moment and the pattern alone. A moment outside the calendar
/// has no `DateTime`, and a pattern that chrono does not know makes the writing
/// fail: neither is admitted.
#[verifier::external_body]
fn utc_format(secs: i64, nanos: u32, pattern: &str) -> (r: String)
    requires
        (Timestamp { secs, nanos }).wf(),
        pattern@ == date_pattern(),
    ensures
        r@ == chrono_format(secs, nanos, pattern@),
{
    chrono::DateTime::from_timestamp(secs, nanos).unwrap().format(pattern).to_string()
}

/// Calls the `Display` of `chrono::DateTime<Utc>`. The text depends on the
/// moment alone.
#[verifier::external_body]
fn utc_display(secs: i64, nanos: u32) -> (r: String)
    requires
        (Timestamp { secs, nanos }).wf(),
    ensures
        r@ == chrono_display(secs, nanos),
{
    chrono::DateTime::from_timestamp(secs, nanos).unwrap().to_string()
}

/// The date and the time of day of `t`, to the second.
pub fn date_text(t: Timestamp) -> (r: String)
    requires
        t.wf(),
    ensures
        r@ == chrono_format(t.secs, t.nanos, date_pattern()),
{
    utc_format(t.secs, t.nanos, "%Y-%m-%d %H:%M:%S")
}

/// The date, the time of day and the time zone of `t`.
pub fn moment_text(t: Timestamp) -> (r: String)
    requires
        t.wf(),
    ensures
        r@ == chrono_display(t.secs, t.nanos),
{
    utc_display(t.secs, t.nanos)
}

/// The count stops being before the start exactly when no time is left, and a
/// count of whole minutes differs from zero only from a minute's distance on.
pub proof fn law_countdown_sign(start: Timestamp, now: Timestamp)
    requires
        start.wf(),
        now.wf(),
    ensures
        countdown_spec(start, now).reached <==> gap(start, now) >= 0,
        countdown_spec(start, now).minutes > 0 <==> gap(start, now) >= 60 * NANOS,
        countdown_spec(start, now).minutes < 0 <==> gap(start, now) <= -60 * NANOS,
{
    let gap = gap(start, now);
    if gap < 0 {
        assert((-gap) / (NANOS as int) >= 60 <==> -gap >= 60 * NANOS);
    } else {
        assert(gap / (NANOS as int) >= 60 <==> gap >= 60 * NANOS);
    }
}

/// Away from leap seconds the distance of two moments has the sign of their
/// order, and is the same in both directions.
pub proof fn law_gap_orders(from: Timestamp, to: Timestamp)
    requires
        from.nanos < NANOS,
        to.nanos < NANOS,
    ensures
        gap(from, to) >= 0 <==> to.at_or_after(from),
        gap(from, to) == -gap(to, from),
{
}

} // verus!

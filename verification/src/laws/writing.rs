//! Promises on texts, numbers and moments, and on what the views of the types
//! leave of them.

use crate::event::{event_views, level_name, Data, Event, EventView, Level};
use crate::names::{found, number, text_view, usual_path, waterfall_path, Found};
use crate::report::{cause_lines, error_text};
use crate::single::{less, truncated};
use crate::text::{
    blanks, bracketed, decimal, enumerated, explicit_decimal, left_aligned, right_aligned, shown,
    signed_decimal, Span,
};
use crate::time::{clock, countdown_spec, gap, Timestamp};
use crate::ui::{draw_message, effect_views, line_views, DrawError, Effect, EffectView};
use crate::waterfall::{outcome, Turn, Watch};
use vstd::arithmetic::power2::pow2;
use vstd::prelude::*;

verus! {

/// A text in a field keeps all its characters in their order, at the right or the
/// left end, and the field is filled with blanks up to its width. A text that is
/// too long stays as it is.
pub proof fn law_alignment(s: Seq<char>, width: nat)
    ensures
        ({
            let right = right_aligned(s, width);
            let left = left_aligned(s, width);
            let len: int = if s.len() < width {
                width as int
            } else {
                s.len() as int
            };
            &&& right.len() == len
            &&& left.len() == len
            &&& right.skip(len - s.len()) == s
            &&& left.take(s.len() as int) == s
            &&& forall|i: int| 0 <= i < len - s.len() ==> #[trigger] right[i] == ' '
            &&& forall|i: int| s.len() <= i < len ==> #[trigger] left[i] == ' '
        }),
        blanks(width).len() == width,
        forall|i: int| 0 <= i < width ==> #[trigger] blanks(width)[i] == ' ',
{
    let right = right_aligned(s, width);
    let left = left_aligned(s, width);
    assert(right.skip(right.len() - s.len()) =~= s);
    assert(left.take(s.len() as int) =~= s);
}

/// A number is written by its digits, the most significant first and without
/// leading zeros.
pub proof fn law_decimal_digits(n: nat)
    ensures
        n < 10 ==> decimal(n) == seq![(48 + n) as char],
        n >= 10 ==> decimal(n) == decimal(n / 10).push((48 + n % 10) as char),
        decimal(n).len() >= 1,
        n > 0 ==> decimal(n)[0] != '0',
    decreases n,
{
    reveal_strlit("0123456789");
    if n >= 10 {
        law_decimal_digits(n / 10);
        assert(decimal(n)[0] == decimal(n / 10)[0]);
    }
}

/// A signed number is written as its magnitude, after a minus sign if it is
/// negative, or after a plus sign if a sign is always wanted.
pub proof fn law_signs(n: int)
    ensures
        n < 0 ==> signed_decimal(n) == seq!['-'] + decimal((-n) as nat) && explicit_decimal(n)
            == signed_decimal(n),
        n >= 0 ==> signed_decimal(n) == decimal(n as nat) && explicit_decimal(n) == seq!['+']
            + decimal(n as nat),
{
}

/// A list is written in square brackets, its numbers in their order and with a
/// comma and a blank between each two.
pub proof fn law_lists(list: Seq<u64>, n: u64)
    ensures
        bracketed(list) == seq!['['] + enumerated(list) + seq![']'],
        enumerated(Seq::<u64>::empty()).len() == 0,
        enumerated(seq![n]) == decimal(n as nat),
        list.len() > 0 ==> enumerated(list.push(n)) == enumerated(list) + seq![',', ' '] + decimal(
            n as nat,
        ),
{
    reveal_strlit("[");
    reveal_strlit("]");
    reveal_strlit(", ");
    assert("["@ =~= seq!['[']);
    assert("]"@ =~= seq![']']);
    assert(", "@ =~= seq![',', ' ']);
    assert(list.push(n).drop_last() =~= list);
}

/// The causes of a failure follow each other in their order, each behind an arrow
/// on a line of its own.
pub proof fn law_causes(causes: Seq<String>, cause: String)
    ensures
        cause_lines(Seq::<String>::empty()).len() == 0,
        cause_lines(causes.push(cause)) == cause_lines(causes) + seq!['\n', ' ', '-', '>', ' ']
            + cause@,
{
    reveal_strlit("\n -> ");
    assert("\n -> "@ =~= seq!['\n', ' ', '-', '>', ' ']);
    assert(causes.push(cause).drop_last() =~= causes);
}

/// A failure is told by its message behind fixed words; without causes that is
/// all, and a further cause comes at the end.
pub proof fn law_error_text(message: Seq<char>, causes: Seq<String>, cause: String)
    ensures
        error_text(message, Seq::empty()) == "Error occurred: "@ + message,
        error_text(message, causes.push(cause)) == error_text(message, causes) + seq![
            '\n',
            ' ',
            '-',
            '>',
            ' ',
        ] + cause@,
{
    law_causes(causes, cause);
    assert(error_text(message, Seq::empty()) =~= "Error occurred: "@ + message);
    assert(error_text(message, causes.push(cause)) =~= error_text(message, causes) + seq![
        '\n',
        ' ',
        '-',
        '>',
        ' ',
    ] + cause@);
}

/// Each level is logged under its name.
pub proof fn law_level_names()
    ensures
        level_name(Level::Error) == seq!['E', 'R', 'R', 'O', 'R'],
        level_name(Level::Warn) == seq!['W', 'A', 'R', 'N'],
        level_name(Level::Info) == seq!['I', 'N', 'F', 'O'],
        level_name(Level::Debug) == seq!['D', 'E', 'B', 'U', 'G'],
        level_name(Level::Trace) == seq!['T', 'R', 'A', 'C', 'E'],
{
    reveal_strlit("ERROR");
    reveal_strlit("WARN");
    reveal_strlit("INFO");
    reveal_strlit("DEBUG");
    reveal_strlit("TRACE");
    assert("ERROR"@ =~= seq!['E', 'R', 'R', 'O', 'R']);
    assert("WARN"@ =~= seq!['W', 'A', 'R', 'N']);
    assert("INFO"@ =~= seq!['I', 'N', 'F', 'O']);
    assert("DEBUG"@ =~= seq!['D', 'E', 'B', 'U', 'G']);
    assert("TRACE"@ =~= seq!['T', 'R', 'A', 'C', 'E']);
}

/// A number is read digit by digit: each digit at the end multiplies by ten and
/// adds itself, as long as that fits.
pub proof fn law_number_grows_by_digits(s: Seq<char>, c: char)
    ensures
        number(Seq::<char>::empty()) is None,
        '0' <= c <= '9' ==> number(seq![c]) == Some((c as u64 - '0' as u64) as u64),
        '0' <= c <= '9' && number(s) is Some ==> number(s.push(c)) == (if 10 * number(s)->0 + (
        c as u64 - '0' as u64) <= u64::MAX {
            Some((10 * number(s)->0 + (c as u64 - '0' as u64)) as u64)
        } else {
            None
        }),
{
    reveal_with_fuel(crate::names::value_of, 2);
    if '0' <= c <= '9' {
        assert(seq![c].drop_last() =~= Seq::<char>::empty());
        assert(crate::names::unsigned(seq![c]) == seq![c]);
        assert(crate::names::digits_only(seq![c]));
        if number(s) is Some {
            let t = crate::names::unsigned(s);
            let longer = crate::names::unsigned(s.push(c));
            assert(longer =~= t.push(c));
            assert(longer.drop_last() =~= t);
            assert forall|i: int| 0 <= i < longer.len() implies crate::names::is_digit(
                #[trigger] longer[i],
            ) by {
                if i < t.len() {
                    assert(crate::names::is_digit(t[i]));
                }
            }
        }
    }
}

/// A plus sign in front of digits does not count, and anything else but digits is
/// no number.
pub proof fn law_numbers_are_digits(s: Seq<char>, i: int)
    ensures
        s.len() > 0 && s[0] != '+' ==> number(seq!['+'] + s) == number(s),
        number(seq!['+']) is None,
        0 < i < s.len() && !('0' <= s[i] <= '9') ==> number(s) is None,
        s.len() > 0 && s[0] != '+' && !('0' <= s[0] <= '9') ==> number(s) is None,
{
    let signed = seq!['+'] + s;
    assert(signed.skip(1) =~= s);
    assert(seq!['+'].skip(1) =~= Seq::<char>::empty());
    let t = crate::names::unsigned(s);
    if 0 < i < s.len() && !('0' <= s[i] <= '9') {
        if s[0] == '+' {
            assert(t[i - 1] == s[i]);
            assert(!crate::names::is_digit(t[i - 1]));
        } else {
            assert(!crate::names::is_digit(t[i]));
        }
    }
    if s.len() > 0 && s[0] != '+' && !('0' <= s[0] <= '9') {
        assert(!crate::names::is_digit(t[0]));
    }
}

/// A number that is too large once stays so however it goes on.
pub proof fn law_large_numbers_stay_large(s: Seq<char>, c: char)
    requires
        s.len() > 0,
        number(s) is None,
    ensures
        number(s.push(c)) is None || s == seq!['+'],
{
    let t = crate::names::unsigned(s);
    let longer = crate::names::unsigned(s.push(c));
    assert(longer =~= t.push(c));
    assert(longer.drop_last() =~= t);
    if t.len() == 0 {
        assert(s =~= seq!['+']);
    } else if !crate::names::digits_only(t) {
        let i = choose|i: int| 0 <= i < t.len() && !crate::names::is_digit(#[trigger] t[i]);
        assert(longer[i] == t[i]);
        assert(!crate::names::digits_only(longer));
    } else if crate::names::digits_only(longer) {
        assert(crate::names::is_digit(longer.last()));
        assert(crate::names::value_of(longer) >= crate::names::value_of(t));
    }
}

/// A path without the group is no waterfall's; with it, the observation is what
/// its digits say, or the path is unreadable.
pub proof fn law_found(digits: Seq<char>, id: u64)
    ensures
        found(None) == Found::Nothing,
        found(Some(decimal(id as nat))) == Found::Observation(id),
        number(digits) is None <==> found(Some(digits)) == Found::Unreadable,
        number(digits) == Some(id) <==> found(Some(digits)) == Found::Observation(id),
{
    crate::names::law_number_reads_decimal(id);
}

/// Numbers are compared as they are ordered: a number without the sign bit by its
/// bits, with it the other way round, both zeros alike, and what is no number
/// never.
pub proof fn law_less(a: u32, b: u32, c: u32)
    ensures
        a < 0x8000_0000 && b < 0x8000_0000 ==> (less(a, b) <==> a < b && b <= 0x7f80_0000),
        a >= 0x8000_0000 && b >= 0x8000_0000 ==> (less(a, b) <==> b < a && a <= 0xff80_0000),
        a >= 0x8000_0000 && b < 0x8000_0000 ==> (less(a, b) <==> a <= 0xff80_0000 && b
            <= 0x7f80_0000 && !(a == 0x8000_0000 && b == 0)),
        a < 0x8000_0000 && b >= 0x8000_0000 ==> !less(a, b),
        less(a, b) && less(b, c) ==> less(a, c),
        !(less(a, b) && less(b, a)),
{
}

/// A positive number is cut to the largest whole number that is not above it, or
/// to the largest that there is; a negative one and what is no number give zero.
pub proof fn law_truncated(bits: u32)
    ensures
        bits >= 0x8000_0000 || bits > 0x7f80_0000 ==> truncated(bits) == 0,
        bits <= 0x7f80_0000 ==> {
            let e = (bits / 0x80_0000) as int;
            let m = 0x80_0000 + bits % 0x80_0000;
            let r = truncated(bits);
            &&& e < 150 ==> r * pow2((150 - e) as nat) <= m < (r + 1) * pow2((150 - e) as nat)
            &&& e >= 150 && m * pow2((e - 150) as nat) <= u64::MAX ==> r == m * pow2(
                (e - 150) as nat,
            )
            &&& e >= 150 && m * pow2((e - 150) as nat) > u64::MAX ==> r == u64::MAX
        },
{
    if bits <= 0x7f80_0000 {
        let e = (bits / 0x80_0000) as int;
        let m = (0x80_0000 + bits % 0x80_0000) as int;
        if e < 150 {
            let p = pow2((150 - e) as nat) as int;
            vstd::arithmetic::power2::lemma_pow2_pos((150 - e) as nat);
            vstd::arithmetic::div_mod::lemma_fundamental_div_mod(m, p);
            vstd::arithmetic::div_mod::lemma_mod_bound(m, p);
            let q = m / p;
            vstd::arithmetic::div_mod::lemma_div_is_ordered_by_denominator(m, 1, p);
            vstd::arithmetic::div_mod::lemma_div_pos_is_pos(m, p);
            assert(q <= m);
            assert(q * p <= m < (q + 1) * p) by (nonlinear_arith)
                requires
                    m == p * q + m % p,
                    0 <= m % p < p,
            ;
        }
    }
}

/// The distance of two moments is the difference of their nanoseconds, but for a
/// leap second at the moment with the earlier time of day, which counts.
pub proof fn law_gap(from: Timestamp, to: Timestamp)
    ensures
        ({
            let plain = (to.secs - from.secs) * 1_000_000_000 + to.nanos - from.nanos;
            let earlier = from.secs as int % 86_400;
            let later = to.secs as int % 86_400;
            &&& earlier < later && from.nanos >= 1_000_000_000 ==> gap(from, to) == plain
                + 1_000_000_000
            &&& earlier > later && to.nanos >= 1_000_000_000 ==> gap(from, to) == plain
                - 1_000_000_000
            &&& !(earlier < later && from.nanos >= 1_000_000_000) && !(earlier > later && to.nanos
                >= 1_000_000_000) ==> gap(from, to) == plain
        }),
        gap(from, from) == 0,
        gap(from, to) == -gap(to, from),
{
}

/// So many minutes and seconds are the whole ones of a distance in nanoseconds,
/// and the minutes have its sign.
pub open spec fn is_distance(minutes: int, seconds: int, nanos: int) -> bool {
    let whole = if minutes < 0 {
        -60 * minutes + seconds
    } else {
        60 * minutes + seconds
    };
    let length = if nanos < 0 {
        -nanos
    } else {
        nanos
    };
    &&& 0 <= seconds < 60
    &&& whole * 1_000_000_000 <= length < (whole + 1) * 1_000_000_000
    &&& minutes > 0 ==> nanos > 0
    &&& minutes < 0 ==> nanos < 0
}

/// A count shows the whole minutes and seconds between a start and now, before
/// the start as after it, and has reached the start exactly if no time is left.
/// No other minutes and seconds would do.
pub proof fn law_countdown(start: Timestamp, now: Timestamp, minutes: int, seconds: int)
    requires
        start.wf(),
        now.wf(),
    ensures
        ({
            let count = countdown_spec(start, now);
            &&& is_distance(count.minutes as int, count.seconds as int, gap(start, now))
            &&& count.reached <==> gap(start, now) >= 0
            &&& is_distance(minutes, seconds, gap(start, now)) ==> minutes == count.minutes
                && seconds == count.seconds
        }),
{
    let nanos = gap(start, now);
    let length = if nanos < 0 {
        -nanos
    } else {
        nanos
    };
    let secs = length / 1_000_000_000;
    assert(secs * 1_000_000_000 <= length < (secs + 1) * 1_000_000_000);
    let m = secs / 60;
    let s = secs % 60;
    assert(secs == 60 * m + s);
}

/// A clock shows the minutes, a prime, the seconds in two places and two primes.
pub proof fn law_clock(minutes: Seq<char>, seconds: nat)
    requires
        seconds < 60,
    ensures
        ({
            let text = clock(minutes, seconds);
            let n = minutes.len() as int;
            &&& text.len() == n + 4
            &&& text.take(n) == minutes
            &&& text[n] == '\''
            &&& text[n + 1] == (if seconds < 10 {
                ' '
            } else {
                (48 + seconds / 10) as char
            })
            &&& text[n + 2] == (48 + seconds % 10) as char
            &&& text[n + 3] == '"'
        }),
{
    reveal_strlit("'");
    reveal_strlit("\"");
    law_decimal_digits(seconds);
    law_decimal_digits(seconds / 10);
    let digits = decimal(seconds);
    if seconds < 10 {
        assert(digits.len() == 1);
    } else {
        assert(decimal(seconds / 10).len() == 1);
        assert(digits.len() == 2);
    }
    assert(clock(minutes, seconds).take(minutes.len() as int) =~= minutes);
}

/// Moments of the calendar and no others are valid, and are ordered by their
/// seconds and then by their nanoseconds.
pub proof fn law_moments(a: Timestamp, b: Timestamp)
    ensures
        a.wf() <==> -8_334_601_228_800 <= a.secs <= 8_210_266_876_799 && (a.nanos < 1_000_000_000
            || (a.nanos < 2_000_000_000 && a.secs as int % 60 == 59)),
        a.at_or_after(b) || b.at_or_after(a),
        a.at_or_after(b) && b.at_or_after(a) ==> a == b,
        a.secs > b.secs ==> a.at_or_after(b),
        a.secs == b.secs ==> (a.at_or_after(b) <==> a.nanos >= b.nanos),
{
}

/// The view of an event says which one it is and holds all it carries.
pub proof fn law_event_views(event: Event, events: Seq<Event>)
    ensures
        event matches Event::Input(input) ==> event@ == EventView::Input(input),
        event matches Event::Log(entry) ==> event@ == EventView::Log(entry.0, entry.1@),
        event matches Event::CommandResponse(Data::Jobs(id, jobs)) ==> event@ == EventView::Jobs(
            id,
            jobs@,
        ),
        event is Resize ==> event@ == EventView::Resize,
        event matches Event::SystemInfo(ids, info) ==> event@ == EventView::SystemInfo(ids@, info),
        event is Tick ==> event@ == EventView::Tick,
        event matches Event::WaterfallCreated(id, frequencies) ==> event@
            == EventView::WaterfallCreated(id, frequencies@),
        event matches Event::WaterfallData(seconds, data) ==> event@ == EventView::WaterfallData(
            seconds,
            data@,
        ),
        event matches Event::WaterfallClosed(id) ==> event@ == EventView::WaterfallClosed(id),
        event_views(events).len() == events.len(),
        forall|i: int| 0 <= i < events.len() ==> #[trigger] event_views(events)[i] == events[i]@,
{
}

/// The outcome of a report holds the watch and all events as they are.
pub proof fn law_outcome_is_whole(watch: Watch, turn: Turn)
    ensures
        outcome(watch, turn).watch == watch,
        outcome(watch, turn).events.len() == turn.events@.len(),
        forall|i: int|
            0 <= i < turn.events@.len() ==> #[trigger] outcome(watch, turn).events[i]
                == turn.events@[i]@,
{
}

/// The view of an effect says which one it is and holds all it carries.
pub proof fn law_effect_views(effect: Effect, effects: Seq<Effect>)
    ensures
        effect matches Effect::UpdateJobs(id, jobs) ==> effect@ == EffectView::UpdateJobs(
            id,
            jobs@,
        ),
        effect matches Effect::UpdateVesselPosition(n) ==> effect@
            == EffectView::UpdateVesselPosition(n),
        effect matches Effect::UpdateSysInfo(ids, info) ==> effect@ == EffectView::UpdateSysInfo(
            ids@,
            info,
        ),
        effect matches Effect::RequestJobs(ids) ==> effect@ == EffectView::RequestJobs(ids@),
        effect is RemoveFinishedJobs ==> effect@ == EffectView::RemoveFinishedJobs,
        effect is NextStation ==> effect@ == EffectView::NextStation,
        effect is PrevStation ==> effect@ == EffectView::PrevStation,
        effect is ZoomIn ==> effect@ == EffectView::ZoomIn,
        effect is ZoomOut ==> effect@ == EffectView::ZoomOut,
        effect matches Effect::Log(level, message) ==> effect@ == EffectView::Log(level, message@),
        effect matches Effect::LogKey(key) ==> effect@ == EffectView::LogKey(key),
        effect_views(effects).len() == effects.len(),
        forall|i: int| 0 <= i < effects.len() ==> #[trigger] effect_views(effects)[i] == effects[i]@,
{
}

/// The view of a list of spans holds each with its text and its colour, and that
/// of the lines of a waterfall each with its seconds and its samples.
pub proof fn law_list_views(spans: Seq<Span>, lines: Seq<(u32, Vec<u32>)>)
    ensures
        shown(spans).len() == spans.len(),
        forall|i: int|
            0 <= i < spans.len() ==> #[trigger] shown(spans)[i] == (spans[i].text@, spans[i].color),
        line_views(lines).len() == lines.len(),
        forall|i: int|
            0 <= i < lines.len() ==> #[trigger] line_views(lines)[i] == (lines[i].0, lines[i].1@),
{
}

/// A usual path of a waterfall is its directory, the fixed part of the name, the
/// digits, the time stamp and the ending, in this order. The directory can be any
/// on one line, and the number any that is written in decimal.
pub proof fn law_usual_paths(directory: Seq<char>, id: u64, stamp: Seq<char>)
    ensures
        waterfall_path(directory, decimal(id as nat), stamp) == directory
            + "/receiving_waterfall_"@ + decimal(id as nat) + "_"@ + stamp + ".dat"@,
        !directory.contains('\n') && (forall|i: int|
            0 <= i < stamp.len() ==> '0' <= #[trigger] stamp[i] <= '9' || stamp[i] == '-'
                || stamp[i] == ':' || stamp[i] == '_' || stamp[i] == 'T') ==> usual_path(
            directory,
            decimal(id as nat),
            stamp,
        ),
{
    crate::names::law_number_reads_decimal(id);
    law_decimal_digits(id as nat);
    let digits = decimal(id as nat);
    lemma_decimal_has_digits(id as nat);
    assert(digits[0] != '+') by {
        assert('0' <= digits[0] <= '9');
    }
}

proof fn lemma_decimal_has_digits(n: nat)
    ensures
        forall|i: int| 0 <= i < decimal(n).len() ==> '0' <= #[trigger] decimal(n)[i] <= '9',
    decreases n,
{
    law_decimal_digits(n);
    if n >= 10 {
        lemma_decimal_has_digits(n / 10);
        assert forall|i: int| 0 <= i < decimal(n).len() implies '0' <= #[trigger] decimal(n)[i]
            <= '9' by {
            if i < decimal(n / 10).len() {
                assert(decimal(n)[i] == decimal(n / 10)[i]);
            }
        }
    }
}

/// The view of a text that may be missing holds its characters.
pub proof fn law_text_view(text: Option<String>)
    ensures
        text is None <==> text_view(text) is None,
        text matches Some(s) ==> text_view(text) == Some(s@),
{
}

/// Each failure to draw has its own text.
pub proof fn law_draw_messages()
    ensures
        draw_message(DrawError::Size) == "Failed to get terminal size"@,
        draw_message(DrawError::Resize) == "Failed to resize terminal"@,
        draw_message(DrawError::Draw) == "Failed to draw to terminal"@,
{
}

/// The view of the user interface holds each of its fields.
pub proof fn law_ui_view(ui: crate::ui::Ui)
    ensures
        ui@.logs == ui.logs@,
        ui@.api_endpoint == ui.settings.api_endpoint@,
        ui@.log_level == ui.settings.log_level,
        ui@.configured == ui.settings.stations@,
        ui@.stations == ui.stations@,
        ui@.ground_track_num == ui.settings.ui.ground_track_num,
        ui@.sat_footprint == ui.settings.ui.sat_footprint,
        ui@.zoom == ui.settings.waterfall_zoom,
        ui@.show_logs == ui.show_logs,
        ui@.shutdown == ui.shutdown,
        ui@.last_job_update == ui.last_job_update,
        ui@.size == ui.size,
        ui@.ticks == ui.ticks,
        ui@.obs_id == ui.waterfall_obs_id,
        ui@.frequencies == ui.waterfall_frequencies@,
        ui@.data == line_views(ui.waterfall_data@),
        ui@.phase == ui.phase,
{
}

} // verus!

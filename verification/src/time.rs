//! Instants in time, and when a stored one is due for a refresh.
use vstd::prelude::*;

use crate::http::opt_text;

verus! {

broadcast use vstd::string::group_string_axioms;

/// An instant: whole seconds since the Unix epoch and the nanoseconds into the
/// second. Within a leap second the nanoseconds run on past a billion.
#[derive(Debug, Clone, Copy, PartialEq, Eq, Structural)]
pub struct Timestamp {
    pub secs: i64,
    pub nanos: u32,
}

/// The nanoseconds of a second.
pub const BILLION: i128 = 1_000_000_000;

/// Whether an instant lies within a leap second.
pub open spec fn in_leap_second(t: Timestamp) -> bool {
    t.nanos >= BILLION
}

/// The second of the day in which an instant lies.
pub open spec fn second_of_day(t: Timestamp) -> int {
    t.secs as int % 86_400
}

/// The nanoseconds from `b` to `a`. Times of day that lie on either side of a
/// leap second of one of the two instants are one second further apart.
pub open spec fn nanos_between(a: Timestamp, b: Timestamp) -> int {
    let plain = (a.secs - b.secs) * BILLION + a.nanos - b.nanos;
    if second_of_day(a) > second_of_day(b) && in_leap_second(b) {
        plain + BILLION
    } else if second_of_day(a) < second_of_day(b) && in_leap_second(a) {
        plain - BILLION
    } else {
        plain
    }
}

/// Whether `a` is earlier than an instant given by its seconds and nanoseconds.
pub open spec fn is_before(a_secs: int, a_nanos: int, b_secs: int, b_nanos: int) -> bool {
    a_secs < b_secs || (a_secs == b_secs && a_nanos < b_nanos)
}

/// The seconds and nanoseconds `delta` seconds after `t`. A step out of a leap
/// second starts from its end going back and from its beginning going forward.
pub open spec fn stepped(t: Timestamp, delta: int) -> (int, int) {
    if !in_leap_second(t) || delta == 0 {
        (t.secs + delta, t.nanos as int)
    } else if delta > 0 {
        (t.secs + delta, t.nanos - BILLION)
    } else {
        (t.secs + 1 + delta, t.nanos - BILLION)
    }
}

impl Timestamp {
    /// The second of the day in which the instant lies.
    fn second_of_day(&self) -> (r: i64)
        ensures
            r == second_of_day(*self),
    {
        let m: i64 = self.secs % 86_400;
        if m < 0 {
            m + 86_400
        } else {
            m
        }
    }

    /// The nanoseconds from `other` to this instant.
    pub fn nanos_since(&self, other: &Timestamp) -> (r: i128)
        ensures
            r == nanos_between(*self, *other),
            -20_000_000_000_000_000_000_000_000_000 <= r <= 20_000_000_000_000_000_000_000_000_000,
    {
        let plain: i128 = (self.secs as i128 - other.secs as i128) * BILLION + self.nanos as i128
            - other.nanos as i128;
        let a: i64 = self.second_of_day();
        let b: i64 = other.second_of_day();
        if a > b && other.nanos as i128 >= BILLION {
            plain + BILLION
        } else if a < b && self.nanos as i128 >= BILLION {
            plain - BILLION
        } else {
            plain
        }
    }

    /// Whether the instant is earlier than `other` stepped by `delta` seconds.
    pub fn before_step(&self, other: &Timestamp, delta: i64) -> (r: bool)
        ensures
            r == is_before(
                self.secs as int,
                self.nanos as int,
                stepped(*other, delta as int).0,
                stepped(*other, delta as int).1,
            ),
    {
        let (secs, nanos): (i128, i128) = step(other, delta);
        (self.secs as i128) < secs || (self.secs as i128 == secs && (self.nanos as i128) < nanos)
    }

    /// Whether the instant is later than `other` stepped by `delta` seconds.
    pub fn after_step(&self, other: &Timestamp, delta: i64) -> (r: bool)
        ensures
            r == is_before(
                stepped(*other, delta as int).0,
                stepped(*other, delta as int).1,
                self.secs as int,
                self.nanos as int,
            ),
    {
        let (secs, nanos): (i128, i128) = step(other, delta);
        secs < self.secs as i128 || (secs == self.secs as i128 && nanos < self.nanos as i128)
    }
}

/// The seconds and nanoseconds `delta` seconds after `t`.
fn step(t: &Timestamp, delta: i64) -> (r: (i128, i128))
    ensures
        r.0 == stepped(*t, delta as int).0,
        r.1 == stepped(*t, delta as int).1,
{
    let secs: i128 = t.secs as i128;
    let nanos: i128 = t.nanos as i128;
    let delta: i128 = delta as i128;
    if nanos < BILLION || delta == 0 {
        (secs + delta, nanos)
    } else if delta > 0 {
        (secs + delta, nanos - BILLION)
    } else {
        (secs + 1 + delta, nanos - BILLION)
    }
}

// ---- reading and writing times --------------------------------------------

/// The seconds since the epoch and the nanoseconds that `chrono` reads from an
/// RFC 3339 text, where it is one.
pub uninterp spec fn rfc3339_instant(s: Seq<char>) -> Option<(i64, u32)>;

/// The instant that a text stands for.
pub open spec fn instant_of(s: Seq<char>) -> Option<Timestamp> {
    match rfc3339_instant(s) {
        Some((secs, nanos)) => Some(Timestamp { secs, nanos }),
        None => None,
    }
}

/// `chrono::DateTime::parse_from_rfc3339`, read with `timestamp` and
/// `timestamp_subsec_nanos`: a function of the text alone. The year of the text
/// has four digits and its offset is less than a day, so the instant lies
/// between the day before the year 0 and the day after the year 9999.
#[verifier::external_body]
fn read_rfc3339(s: &str) -> (r: Option<(i64, u32)>)
    ensures
        r == rfc3339_instant(s@),
        r matches Some((secs, nanos)) ==> -62_167_305_600 <= secs <= 253_402_387_199 && nanos
            < 2_000_000_000,
{
    let t = chrono::DateTime::parse_from_rfc3339(s).ok()?;
    Some((t.timestamp(), t.timestamp_subsec_nanos()))
}

/// Whether the clock can show an instant: one from the Unix epoch up to the end
/// of the last year that `chrono` can represent.
pub open spec fn is_clock_time(t: Timestamp) -> bool {
    0 <= t.secs <= 8_210_266_876_799 && t.nanos < 2_000_000_000
}

/// `chrono::Utc::now`: the clock of the machine. Which time it is rests on the
/// clock; it is not before the Unix epoch, nor after the last instant that
/// `chrono` can represent.
#[verifier::external_body]
fn read_clock() -> (r: (i64, u32))
    ensures
        is_clock_time(Timestamp { secs: r.0, nanos: r.1 }),
{
    let now = chrono::Utc::now();
    (now.timestamp(), now.timestamp_subsec_nanos())
}

/// Current UTC time in RFC 3339 with milliseconds: `chrono::Utc::now` printed
/// by `to_rfc3339_opts`. Which time it is rests on the clock; the text is in
/// UTC, marked with a final `Z`, and at least as long as one with a year of
/// four digits.
#[verifier::external_body]
pub fn now_utc() -> (r: String)
    ensures
        r@.len() >= 24,
        r@.last() == 'Z',
{
    chrono::Utc::now().to_rfc3339_opts(chrono::SecondsFormat::Millis, true)
}

/// The instant that an RFC 3339 text stands for, if it is one.
pub fn parse_time(s: &str) -> (r: Option<Timestamp>)
    ensures
        r == instant_of(s@),
        r matches Some(t) ==> -62_167_305_600 <= t.secs <= 253_402_387_199 && t.nanos
            < 2_000_000_000,
{
    match read_rfc3339(s) {
        Some((secs, nanos)) => Some(Timestamp { secs, nanos }),
        None => None,
    }
}

// ---- when something is due ------------------------------------------------

/// A number of seconds that no readable time lies behind the clock.
pub const CLOCK_SPAN: u64 = 9_000_000_000_000;

/// Whether the interval has passed since `last` at the time `now`.
pub open spec fn has_passed(now: Timestamp, last: Timestamp, interval: u64) -> bool {
    nanos_between(now, last) >= interval * BILLION
}

/// Whether something last done at `last` is due at the time `now`: it has never
/// been done, the time cannot be read, or the interval has passed.
pub open spec fn is_due(now: Timestamp, last: Option<Seq<char>>, interval: u64) -> bool {
    match last {
        Some(raw) => match instant_of(raw) {
            Some(t) => has_passed(now, t, interval),
            None => true,
        },
        None => true,
    }
}

/// Whether deciding that something is due compares an interval at all.
pub open spec fn is_timed(last: Option<Seq<char>>) -> bool {
    last matches Some(raw) && instant_of(raw) is Some
}

/// The time that the clock shows.
pub fn clock() -> (r: Timestamp)
    ensures
        is_clock_time(r),
{
    let (secs, nanos) = read_clock();
    Timestamp { secs, nanos }
}

/// Whether the interval has passed between two instants.
pub fn passed(now: &Timestamp, last: &Timestamp, interval: u64) -> (r: bool)
    ensures
        r == has_passed(*now, *last, interval),
{
    now.nanos_since(last) >= interval as i128 * BILLION
}

/// Whether something last done at `last` (RFC 3339) is due at the time `now`.
pub fn due_at(now: &Timestamp, last: &Option<String>, interval: u64) -> (r: bool)
    ensures
        r == is_due(*now, opt_text(*last), interval),
        is_clock_time(*now) && is_timed(opt_text(*last)) && interval >= CLOCK_SPAN ==> !r,
{
    match last {
        Some(raw) => match parse_time(raw.as_str()) {
            Some(t) => passed(now, &t, interval),
            None => true,
        },
        None => true,
    }
}

/// Whether the stored timestamp (RFC 3339) is older than `interval_seconds`.
/// What has no readable timestamp always is, and nothing is older than the span
/// of the clock; for the rest the clock decides, as `due_at` says for each time
/// that it may show.
pub fn due(last: &Option<String>, interval_seconds: u64) -> (r: bool)
    ensures
        !is_timed(opt_text(*last)) ==> r,
        is_timed(opt_text(*last)) && interval_seconds >= CLOCK_SPAN ==> !r,
        exists|now: Timestamp|
            is_clock_time(now) && r == #[trigger] is_due(now, opt_text(*last), interval_seconds),
{
    let now = clock();
    due_at(&now, last, interval_seconds)
}

// ---- laws -----------------------------------------------------------------

/// Outside leap seconds time is counted plainly: the nanoseconds between two
/// instants, their order, and a step of some seconds are those of the numbers.
pub proof fn law_plain_times_are_numbers(a: Timestamp, b: Timestamp, delta: int)
    requires
        a.nanos < 1_000_000_000,
        b.nanos < 1_000_000_000,
    ensures
        nanos_between(a, b) == (a.secs - b.secs) * 1_000_000_000 + a.nanos - b.nanos,
        nanos_between(a, b) == -nanos_between(b, a),
        stepped(a, delta) == (a.secs + delta, a.nanos as int),
        is_before(a.secs as int, a.nanos as int, b.secs as int, b.nanos as int) <==> nanos_between(
            a,
            b,
        ) < 0,
{
}

/// The nanoseconds from one instant to another are those back, with the sign
/// turned, and between an instant and itself there are none. A leap second counts
/// for times of day beyond it, and for no others.
pub proof fn law_leap_seconds_count(a: Timestamp, b: Timestamp)
    ensures
        nanos_between(a, b) == -nanos_between(b, a),
        nanos_between(a, a) == 0,
        b.nanos >= 1_000_000_000 && a.secs % 86_400 > b.secs % 86_400 ==> nanos_between(a, b) == (
        a.secs - b.secs + 1) * 1_000_000_000 + a.nanos - b.nanos,
        a.secs % 86_400 == b.secs % 86_400 ==> nanos_between(a, b) == (a.secs - b.secs)
            * 1_000_000_000 + a.nanos - b.nanos,
        b.nanos >= 1_000_000_000 && a.nanos < 1_000_000_000 && a.secs % 86_400 < b.secs % 86_400
            ==> nanos_between(a, b) == (a.secs - b.secs) * 1_000_000_000 + a.nanos - b.nanos,
{
}

/// A step out of a leap second leaves it: going forward by some seconds from its
/// beginning, going back from its end. No step at all stays within it.
pub proof fn law_steps_leave_leap_seconds(t: Timestamp, delta: int)
    requires
        1_000_000_000 <= t.nanos < 2_000_000_000,
    ensures
        stepped(t, 0) == (t.secs as int, t.nanos as int),
        delta > 0 ==> stepped(t, delta) == (t.secs + delta, t.nanos - 1_000_000_000),
        delta < 0 ==> stepped(t, delta) == (t.secs + delta + 1, t.nanos - 1_000_000_000),
        delta != 0 ==> 0 <= stepped(t, delta).1 < 1_000_000_000,
{
}

/// Something is due once its interval has passed, and stays due: later times and
/// shorter intervals change that for nothing. What was never done is due, and so
/// is what cannot be read.
pub proof fn law_due_stays_due(now: Timestamp, later: Timestamp, last: Seq<char>, interval: u64, shorter: u64)
    requires
        now.nanos < 1_000_000_000,
        later.nanos < 1_000_000_000,
        nanos_between(later, now) >= 0,
        shorter <= interval,
    ensures
        is_due(now, None, interval),
        instant_of(last) is None ==> is_due(now, Some(last), interval),
        instant_of(last) matches Some(t) ==> t.nanos < 1_000_000_000 ==> {
            &&& is_due(now, Some(last), interval) ==> is_due(later, Some(last), interval)
            &&& is_due(now, Some(last), interval) ==> is_due(now, Some(last), shorter)
            &&& is_due(now, Some(last), interval) <==> (now.secs - t.secs) * 1_000_000_000
                + now.nanos - t.nanos >= interval * 1_000_000_000
        },
{
}

} // verus!

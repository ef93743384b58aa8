//! Instants of Coordinated Universal Time, the two ways they are written, and
//! the clock they are read from.

use crate::text::{digits_value, law_numeral_reads_back, numeral};
use vstd::prelude::*;

verus! {

/// The first second that can be written as a date: the start of the year
/// -262143.
pub const MIN_SECONDS: i64 = -8334601228800;

/// The last second that can be written as a date: the end of the year 262142.
pub const MAX_SECONDS: i64 = 8210266876799;

/// Whether seconds since 1970 and nanoseconds within the second name an
/// instant. A leap second counts on past one thousand million nanoseconds of
/// the second before it, which is the last of its minute.
pub open spec fn is_instant(secs: int, nanos: int) -> bool {
    &&& MIN_SECONDS <= secs <= MAX_SECONDS
    &&& 0 <= nanos < 2_000_000_000
    &&& nanos >= 1_000_000_000 ==> secs % 60 == 59
}

/// A numeral of at least two digits.
pub open spec fn two_digits(n: int) -> Seq<char> {
    if n < 10 {
        "0"@ + numeral(n as nat)
    } else {
        numeral(n as nat)
    }
}

/// A numeral of at least three digits.
pub open spec fn three_digits(n: int) -> Seq<char> {
    if n < 10 {
        "00"@ + numeral(n as nat)
    } else if n < 100 {
        "0"@ + numeral(n as nat)
    } else {
        numeral(n as nat)
    }
}

/// Hours, minutes, seconds and milliseconds of the day: `HH:MM:SS.mmm`.
pub open spec fn time_of_day(secs: int, nanos: int) -> Seq<char> {
    two_digits(secs % 86400 / 3600) + ":"@ + two_digits(secs % 3600 / 60) + ":"@ + two_digits(
        secs % 60 + nanos / 1_000_000_000,
    ) + "."@ + three_digits(nanos / 1_000_000 % 1000)
}

/// The RFC 3339 form of an instant, with the offset written `+00:00` and as
/// many subsecond digits as the instant needs.
pub uninterp spec fn rfc3339_text(secs: int, nanos: int) -> Seq<char>;

/// Calls `chrono::Utc::now`. Trusted: the machine's clock stands at or after
/// 1970 and within the range of dates, and its reading is never inside a leap
/// second. Which instant comes back is not stated: it is whatever the clock
/// says. On a clock set before 1970 the call panics.
#[verifier::external_body]
fn utc_now() -> (r: (i64, u32))
    ensures
        0 <= r.0 <= MAX_SECONDS,
        r.1 < 1_000_000_000,
{
    let now = chrono::Utc::now();
    (now.timestamp(), now.timestamp_subsec_nanos())
}

/// Calls `chrono::DateTime::format` with `%H:%M:%S%.3f` on the instant that
/// `chrono::DateTime::from_timestamp` makes of the two numbers. Trusted: it
/// writes the time of day to the millisecond, and prints a leap second as the
/// sixtieth second of its minute.
#[verifier::external_body]
fn format_time_of_day(secs: i64, nanos: u32) -> (r: String)
    requires
        is_instant(secs as int, nanos as int),
    ensures
        r@ == time_of_day(secs as int, nanos as int),
{
    chrono::DateTime::from_timestamp(secs, nanos).unwrap().format("%H:%M:%S%.3f").to_string()
}

/// Calls `chrono::DateTime::to_rfc3339` on the instant that
/// `chrono::DateTime::from_timestamp` makes of the two numbers. Trusted: the
/// text is determined by the instant alone.
#[verifier::external_body]
fn format_rfc3339(secs: i64, nanos: u32) -> (r: String)
    requires
        is_instant(secs as int, nanos as int),
    ensures
        r@ == rfc3339_text(secs as int, nanos as int),
{
    chrono::DateTime::from_timestamp(secs, nanos).unwrap().to_rfc3339()
}

/// An instant of Coordinated Universal Time, to the nanosecond.
#[derive(Clone, Copy, Debug, PartialEq, Eq)]
pub struct Timestamp {
    seconds: i64,
    subsec: u32,
}

impl Timestamp {
    #[verifier::type_invariant]
    spec fn valid(self) -> bool {
        is_instant(self.seconds as int, self.subsec as int)
    }

    /// Seconds since the start of 1970.
    pub closed spec fn secs(self) -> int {
        self.seconds as int
    }

    /// Nanoseconds since the start of the second.
    pub closed spec fn nanos(self) -> int {
        self.subsec as int
    }

    /// The instant with the given seconds and nanoseconds, if there is one.
    pub fn new(secs: i64, nanos: u32) -> (r: Option<Timestamp>)
        ensures
            match r {
                Some(t) => is_instant(secs as int, nanos as int) && t.secs() == secs && t.nanos() == nanos,
                None => !is_instant(secs as int, nanos as int),
            },
    {
        if secs < MIN_SECONDS || secs > MAX_SECONDS || nanos >= 2_000_000_000 {
            return None;
        }
        if nanos >= 1_000_000_000 && (secs - MIN_SECONDS) % 60 != 59 {
            return None;
        }
        Some(Timestamp { seconds: secs, subsec: nanos })
    }

    /// Reads the clock.
    pub fn now() -> (r: Timestamp)
        ensures
            0 <= r.secs() <= MAX_SECONDS,
            0 <= r.nanos() < 1_000_000_000,
    {
        let (seconds, subsec) = utc_now();
        Timestamp { seconds, subsec }
    }

    /// Seconds since the start of 1970.
    pub fn seconds(&self) -> (r: i64)
        ensures
            r == self.secs(),
    {
        self.seconds
    }

    /// Nanoseconds since the start of the second.
    pub fn subsec_nanos(&self) -> (r: u32)
        ensures
            r == self.nanos(),
    {
        self.subsec
    }

    /// The time of day, as it stands at the head of a log line.
    pub fn clock_text(&self) -> (r: String)
        ensures
            r@ == time_of_day(self.secs(), self.nanos()),
    {
        proof {
            use_type_invariant(self);
        }
        format_time_of_day(self.seconds, self.subsec)
    }

    /// The instant in RFC 3339 form.
    pub fn to_rfc3339(&self) -> (r: String)
        ensures
            r@ == rfc3339_text(self.secs(), self.nanos()),
    {
        proof {
            use_type_invariant(self);
        }
        format_rfc3339(self.seconds, self.subsec)
    }
}

/// Where a run reads the time from. A clock remembers what it was read to be,
/// so that a contract can tell which of its readings went where.
pub trait Clock: Sized {
    /// The instants that were read so far, first to last.
    spec fn moments(&self) -> Seq<Timestamp>;

    /// The uptimes that were read so far, first to last.
    spec fn uptimes(&self) -> Seq<u64>;

    /// The present instant.
    fn now(&mut self) -> (r: Timestamp)
        ensures
            final(self).moments() == old(self).moments().push(r),
            final(self).uptimes() == old(self).uptimes(),
    ;

    /// Nanoseconds since some moment before the run.
    fn uptime(&mut self) -> (r: u64)
        ensures
            final(self).uptimes() == old(self).uptimes().push(r),
            final(self).moments() == old(self).moments(),
    ;
}

#[verifier::external_type_specification]
#[verifier::external_body]
pub struct ExInstant(std::time::Instant);

/// Calls `std::time::Instant::now`. Nothing is stated of the moment that comes
/// back: it is whatever the machine's steady clock says.
#[verifier::external_body]
fn steady_now() -> std::time::Instant {
    std::time::Instant::now()
}

/// Calls `std::time::Instant::elapsed`, in nanoseconds. Nothing is stated of
/// how much time has passed.
#[verifier::external_body]
fn nanos_since(moment: &std::time::Instant) -> u64 {
    moment.elapsed().as_nanos() as u64
}

/// The machine's clock.
pub struct SystemClock {
    started: std::time::Instant,
    moments: Ghost<Seq<Timestamp>>,
    uptimes: Ghost<Seq<u64>>,
}

impl SystemClock {
    /// The machine's clock, with its uptime counted from here.
    pub fn start() -> (r: SystemClock)
        ensures
            r.moments() == Seq::<Timestamp>::empty(),
            r.uptimes() == Seq::<u64>::empty(),
    {
        SystemClock { started: steady_now(), moments: Ghost(Seq::empty()), uptimes: Ghost(Seq::empty()) }
    }
}

impl Clock for SystemClock {
    closed spec fn moments(&self) -> Seq<Timestamp> {
        self.moments@
    }

    closed spec fn uptimes(&self) -> Seq<u64> {
        self.uptimes@
    }

    fn now(&mut self) -> (r: Timestamp)
        ensures
            0 <= r.secs() <= MAX_SECONDS,
            0 <= r.nanos() < 1_000_000_000,
    {
        let r = Timestamp::now();
        self.moments = Ghost(self.moments@.push(r));
        r
    }

    fn uptime(&mut self) -> (r: u64) {
        let r: u64 = nanos_since(&self.started);
        self.uptimes = Ghost(self.uptimes@.push(r));
        r
    }
}

/// What a list shows at the `n`-th look: its `n`-th item, and the last one
/// after that.
pub open spec fn shown<A>(list: Seq<A>, n: nat) -> A {
    if n < list.len() {
        list[n as int]
    } else {
        list.last()
    }
}

/// A clock that shows given times in turn, and stays at the last of them: for
/// rehearsing a run.
pub struct PresetClock {
    instants: Vec<Timestamp>,
    spans: Vec<u64>,
    /// Which instant comes next, after those that were read.
    moments: (usize, Ghost<Seq<Timestamp>>),
    /// Which uptime comes next, after those that were read.
    uptimes: (usize, Ghost<Seq<u64>>),
}

impl PresetClock {
    #[verifier::type_invariant]
    spec fn in_step(self) -> bool {
        &&& self.moments.0 < self.instants@.len()
        &&& self.instants@[self.moments.0 as int] == shown(self.instants@, self.moments.1@.len())
        &&& self.moments.0 == self.moments.1@.len() || self.moments.0 + 1 == self.instants@.len()
        &&& self.moments.0 <= self.moments.1@.len()
        &&& self.uptimes.0 < self.spans@.len()
        &&& self.spans@[self.uptimes.0 as int] == shown(self.spans@, self.uptimes.1@.len())
        &&& self.uptimes.0 == self.uptimes.1@.len() || self.uptimes.0 + 1 == self.spans@.len()
        &&& self.uptimes.0 <= self.uptimes.1@.len()
    }

    /// The instants that the clock shows.
    pub closed spec fn instants(self) -> Seq<Timestamp> {
        self.instants@
    }

    /// The uptimes that the clock shows.
    pub closed spec fn spans(self) -> Seq<u64> {
        self.spans@
    }

    /// A clock that shows these instants and these uptimes.
    pub fn new(instants: Vec<Timestamp>, spans: Vec<u64>) -> (r: PresetClock)
        requires
            instants@.len() > 0,
            spans@.len() > 0,
        ensures
            r.instants() == instants@,
            r.spans() == spans@,
            r.moments() == Seq::<Timestamp>::empty(),
            r.uptimes() == Seq::<u64>::empty(),
    {
        PresetClock {
            instants,
            spans,
            moments: (0, Ghost(Seq::empty())),
            uptimes: (0, Ghost(Seq::empty())),
        }
    }
}

impl Clock for PresetClock {
    closed spec fn moments(&self) -> Seq<Timestamp> {
        self.moments.1@
    }

    closed spec fn uptimes(&self) -> Seq<u64> {
        self.uptimes.1@
    }

    fn now(&mut self) -> (r: Timestamp)
        ensures
            r == shown(old(self).instants(), old(self).moments().len()),
            final(self).instants() == old(self).instants(),
            final(self).spans() == old(self).spans(),
    {
        proof {
            use_type_invariant(&*self);
        }
        let i: usize = self.moments.0;
        let r = self.instants[i];
        let next: usize = if i < self.instants.len() - 1 {
            i + 1
        } else {
            i
        };
        self.moments = (next, Ghost(self.moments.1@.push(r)));
        r
    }

    fn uptime(&mut self) -> (r: u64)
        ensures
            r == shown(old(self).spans(), old(self).uptimes().len()),
            final(self).instants() == old(self).instants(),
            final(self).spans() == old(self).spans(),
    {
        proof {
            use_type_invariant(&*self);
        }
        let i: usize = self.uptimes.0;
        let r: u64 = self.spans[i];
        let next: usize = if i < self.spans.len() - 1 {
            i + 1
        } else {
            i
        };
        self.uptimes = (next, Ghost(self.uptimes.1@.push(r)));
        r
    }
}

// ─── Laws ─────────────────────────────────────────────────────────────────────

proof fn lemma_two_digits(n: int)
    requires
        0 <= n < 100,
    ensures
        two_digits(n).len() == 2,
        digits_value(two_digits(n)) == n,
{
    reveal_strlit("0123456789");
    reveal_strlit("0");
    let t = two_digits(n);
    law_numeral_reads_back(n as nat);
    if n < 10 {
        assert(t.drop_last() =~= "0"@);
        assert(t.drop_last().drop_last() =~= Seq::<char>::empty());
        assert(digits_value(t.drop_last().drop_last()) == 0);
        assert(digits_value(t.drop_last()) == 0);
        assert(numeral(n as nat).drop_last() =~= Seq::<char>::empty());
        assert(digits_value(numeral(n as nat).drop_last()) == 0);
        assert(t.last() == numeral(n as nat).last());
    } else {
        assert(n / 10 < 10);
        assert(numeral((n / 10) as nat).len() == 1);
    }
}

proof fn lemma_three_digits(n: int)
    requires
        0 <= n < 1000,
    ensures
        three_digits(n).len() == 3,
        digits_value(three_digits(n)) == n,
{
    reveal_strlit("0123456789");
    reveal_strlit("0");
    reveal_strlit("00");
    let t = three_digits(n);
    law_numeral_reads_back(n as nat);
    if n < 100 {
        lemma_two_digits(n);
        if n < 10 {
            assert(t =~= "0"@ + two_digits(n));
        }
        let two = two_digits(n);
        assert(t =~= "0"@ + two);
        assert(t.drop_last() =~= "0"@ + two.drop_last());
        assert(t.drop_last().drop_last() =~= "0"@);
        assert("0"@.drop_last() =~= Seq::<char>::empty());
        assert(digits_value("0"@.drop_last()) == 0);
        assert(digits_value("0"@) == 0);
        assert(two.drop_last().drop_last() =~= Seq::<char>::empty());
        assert(digits_value(two.drop_last().drop_last()) == 0);
        assert(digits_value(two) == digits_value(two.drop_last()) * 10 + (two.last() as int - '0' as int));
        assert(digits_value(t.drop_last()) == digits_value(two.drop_last()));
    } else {
        assert(10 <= n / 10 < 100);
        assert((n / 10) as nat / 10 < 10);
        assert(numeral(((n / 10) as nat) / 10).len() == 1);
        assert(numeral((n / 10) as nat).len() == 2);
    }
}

/// The time of day is written as `HH:MM:SS.mmm`, and what it says is how much
/// of the day has passed: hours, minutes and seconds add up to the second of
/// the day, one more in a leap second, and the last three digits are the
/// milliseconds.
pub proof fn law_time_of_day_reads_back(secs: int, nanos: int)
    requires
        is_instant(secs, nanos),
    ensures
        ({
            let t = time_of_day(secs, nanos);
            let hours = digits_value(t.subrange(0, 2));
            let minutes = digits_value(t.subrange(3, 5));
            let seconds = digits_value(t.subrange(6, 8));
            let millis = digits_value(t.subrange(9, 12));
            &&& t.len() == 12
            &&& t[2] == ':' && t[5] == ':' && t[8] == '.'
            &&& 0 <= hours < 24
            &&& 0 <= minutes < 60
            &&& 0 <= seconds <= 60
            &&& 0 <= millis < 1000
            &&& nanos < 1_000_000_000 ==> hours * 3600 + minutes * 60 + seconds == secs % 86400
            &&& nanos >= 1_000_000_000 ==> hours * 3600 + minutes * 60 + seconds == secs % 86400 + 1
            &&& millis == nanos % 1_000_000_000 / 1_000_000
        }),
{
    reveal_strlit(":");
    reveal_strlit(".");
    let t = time_of_day(secs, nanos);
    let hours = secs % 86400 / 3600;
    let minutes = secs % 3600 / 60;
    let seconds = secs % 60 + nanos / 1_000_000_000;
    let millis = nanos / 1_000_000 % 1000;
    lemma_two_digits(hours);
    lemma_two_digits(minutes);
    lemma_two_digits(seconds);
    lemma_three_digits(millis);
    assert(t.subrange(0, 2) =~= two_digits(hours));
    assert(t.subrange(3, 5) =~= two_digits(minutes));
    assert(t.subrange(6, 8) =~= two_digits(seconds));
    assert(t.subrange(9, 12) =~= three_digits(millis));
    assert(secs % 3600 == secs % 86400 % 3600);
    assert(secs % 60 == secs % 3600 % 60);
}

/// Every second from the year 1 to the year 9999, and every nanosecond of it,
/// is an instant.
pub proof fn law_ordinary_times_are_instants(secs: int, nanos: int)
    ensures
        -62_135_596_800 <= secs < 253_402_300_800 && 0 <= nanos < 1_000_000_000 ==> is_instant(secs, nanos),
        is_instant(secs, nanos) ==> 0 <= nanos < 2_000_000_000,
        is_instant(secs, nanos) && nanos >= 1_000_000_000 ==> secs % 60 == 59,
{
}

/// A preset clock shows its instants one after the other, and its last one
/// from then on.
pub proof fn law_preset_clock_shows_its_list<A>(list: Seq<A>, n: nat)
    requires
        list.len() > 0,
    ensures
        n < list.len() ==> shown(list, n) == list[n as int],
        n >= list.len() ==> shown(list, n) == list[list.len() - 1],
{
}

} // verus!

//! Time as plain numbers: days of the week, points in time with their local
//! offset, and spans between them. The clock is the only thing here that is
//! not computed.

use vstd::prelude::*;

verus! {

/// The seconds of one day.
pub const SECONDS_PER_DAY: i64 = 86_400;

/// The nanoseconds of one second.
pub const NANOS_PER_SECOND: u32 = 1_000_000_000;

/// The seconds of one hour.
pub const SECONDS_PER_HOUR: i64 = 3_600;

/// A point in time lies at most this many seconds from the epoch, on either
/// side. The bound leaves room for the sum of as many differences as a
/// vector can hold.
pub const MAX_SECONDS: i64 = 1_000_000_000_000_000_000;

/// A day of the week.
#[derive(Clone, Copy, Debug, PartialEq, Eq, Structural)]
pub enum Weekday {
    Mon,
    Tue,
    Wed,
    Thu,
    Fri,
    Sat,
    Sun,
}

impl Weekday {
    /// The days from Monday to this day: 0 for Monday, 6 for Sunday.
    pub open spec fn number(self) -> int {
        match self {
            Weekday::Mon => 0,
            Weekday::Tue => 1,
            Weekday::Wed => 2,
            Weekday::Thu => 3,
            Weekday::Fri => 4,
            Weekday::Sat => 5,
            Weekday::Sun => 6,
        }
    }

    /// The day that lies `n` days after a Monday; `n` may be negative.
    pub open spec fn of(n: int) -> Weekday {
        let k = n % 7;
        if k == 0 {
            Weekday::Mon
        } else if k == 1 {
            Weekday::Tue
        } else if k == 2 {
            Weekday::Wed
        } else if k == 3 {
            Weekday::Thu
        } else if k == 4 {
            Weekday::Fri
        } else if k == 5 {
            Weekday::Sat
        } else {
            Weekday::Sun
        }
    }

    /// The day that lies `days` days after this one.
    pub open spec fn plus(self, days: int) -> Weekday {
        Weekday::of(self.number() + days)
    }

    /// The days from Monday to this day.
    pub fn num_days_from_monday(&self) -> (n: u32)
        ensures
            n == self.number(),
    {
        match self {
            Weekday::Mon => 0,
            Weekday::Tue => 1,
            Weekday::Wed => 2,
            Weekday::Thu => 3,
            Weekday::Fri => 4,
            Weekday::Sat => 5,
            Weekday::Sun => 6,
        }
    }

    /// The next day.
    pub fn succ(&self) -> (d: Weekday)
        ensures
            d == self.plus(1),
    {
        match self {
            Weekday::Mon => Weekday::Tue,
            Weekday::Tue => Weekday::Wed,
            Weekday::Wed => Weekday::Thu,
            Weekday::Thu => Weekday::Fri,
            Weekday::Fri => Weekday::Sat,
            Weekday::Sat => Weekday::Sun,
            Weekday::Sun => Weekday::Mon,
        }
    }
}

/// What a `Timestamp` stands for: seconds and nanoseconds since the epoch,
/// 1970-01-01 00:00:00 UTC, and the local offset in seconds east of UTC.
pub struct Moment {
    pub secs: int,
    pub nanos: int,
    pub offset: int,
}

impl Moment {
    /// The ranges that a `Timestamp` keeps.
    pub open spec fn valid(self) -> bool {
        &&& -MAX_SECONDS <= self.secs <= MAX_SECONDS
        &&& 0 <= self.nanos < NANOS_PER_SECOND
        &&& -SECONDS_PER_DAY < self.offset < SECONDS_PER_DAY
    }

    /// The nanoseconds from the epoch to this point.
    pub open spec fn instant(self) -> int {
        self.secs * NANOS_PER_SECOND + self.nanos
    }

    /// The whole days from 1970-01-01 to the local date of this point.
    pub open spec fn local_day(self) -> int {
        (self.secs + self.offset) / (SECONDS_PER_DAY as int)
    }

    /// The day of the week of the local date. 1970-01-01 was a Thursday.
    pub open spec fn weekday(self) -> Weekday {
        Weekday::Thu.plus(self.local_day())
    }

    /// The point `days` days later, at the same offset.
    pub open spec fn plus_days(self, days: int) -> Moment {
        Moment { secs: self.secs + SECONDS_PER_DAY * days, nanos: self.nanos, offset: self.offset }
    }

    /// Whether this point lies strictly later than `other`.
    pub open spec fn is_after(self, other: Moment) -> bool {
        self.instant() > other.instant()
    }
}

/// A point in time, to the nanosecond, with the local offset in force.
#[derive(Clone, Copy, Debug, PartialEq, Eq, Structural)]
pub struct Timestamp {
    secs: i64,
    nanos: u32,
    offset: i32,
}

impl View for Timestamp {
    type V = Moment;

    closed spec fn view(&self) -> Moment {
        Moment { secs: self.secs as int, nanos: self.nanos as int, offset: self.offset as int }
    }
}

/// Reads the clock: chrono's `Local::now`, taken apart with `timestamp`,
/// `timestamp_subsec_nanos` and `offset().local_minus_utc()`. The contract
/// claims the ranges that chrono keeps: the seconds lie within its calendar,
/// which ends long before `MAX_SECONDS`; the nanoseconds come from the system
/// clock and stay under one second; the offset stays within one day. chrono
/// gives up where the system clock stands before 1970.
#[verifier::external_body]
fn read_clock() -> (r: (i64, u32, i32))
    ensures
        (Moment { secs: r.0 as int, nanos: r.1 as int, offset: r.2 as int }).valid(),
{
    let now = chrono::Local::now();
    (now.timestamp(), now.timestamp_subsec_nanos(), now.offset().local_minus_utc())
}

/// Reads the clock in UTC: chrono's `Utc::now`, taken apart with `timestamp`
/// and `timestamp_subsec_nanos`. The contract claims the ranges that chrono
/// keeps, as for the local clock.
#[verifier::external_body]
fn read_utc_clock() -> (r: (i64, u32))
    ensures
        (Moment { secs: r.0 as int, nanos: r.1 as int, offset: 0 }).valid(),
{
    let now = chrono::Utc::now();
    (now.timestamp(), now.timestamp_subsec_nanos())
}

impl Timestamp {
    /// What every timestamp keeps: its ranges.
    #[verifier::type_invariant]
    pub open spec fn well_formed(self) -> bool {
        self@.valid()
    }

    /// The point `secs` seconds and `nanos` nanoseconds after the epoch, seen
    /// at `offset` seconds east of UTC; nothing where one of them is out of
    /// range.
    pub fn new(secs: i64, nanos: u32, offset: i32) -> (r: Option<Timestamp>)
        ensures
            r is Some <==> (Moment {
                secs: secs as int,
                nanos: nanos as int,
                offset: offset as int,
            }).valid(),
            r matches Some(t) ==> t@ == (Moment {
                secs: secs as int,
                nanos: nanos as int,
                offset: offset as int,
            }),
    {
        if -MAX_SECONDS <= secs && secs <= MAX_SECONDS && nanos < NANOS_PER_SECOND && -86_400
            < offset && offset < 86_400 {
            Some(Timestamp { secs, nanos, offset })
        } else {
            None
        }
    }

    /// The present moment, by the system clock and the local time zone.
    pub fn now() -> (t: Timestamp)
        ensures
            t@.valid(),
    {
        let (secs, nanos, offset) = read_clock();
        Timestamp { secs, nanos, offset }
    }

    /// The present moment, by the system clock, in UTC.
    pub fn utc_now() -> (t: Timestamp)
        ensures
            t@.valid(),
            t@.offset == 0,
    {
        let (secs, nanos) = read_utc_clock();
        Timestamp { secs, nanos, offset: 0 }
    }

    /// Seconds since the epoch.
    pub fn secs(&self) -> (r: i64)
        ensures
            r == self@.secs,
            self@.valid(),
    {
        proof {
            use_type_invariant(self);
        }
        self.secs
    }

    /// Nanoseconds since the last whole second.
    pub fn nanos(&self) -> (r: u32)
        ensures
            r == self@.nanos,
            self@.valid(),
    {
        proof {
            use_type_invariant(self);
        }
        self.nanos
    }

    /// The local offset, in seconds east of UTC.
    pub fn offset(&self) -> (r: i32)
        ensures
            r == self@.offset,
            self@.valid(),
    {
        proof {
            use_type_invariant(self);
        }
        self.offset
    }

    /// The day of the week of the local date.
    pub fn weekday(&self) -> (d: Weekday)
        ensures
            d == self@.weekday(),
    {
        proof {
            use_type_invariant(self);
        }
        let local: i64 = self.secs + self.offset as i64;
        let q: i64 = local / SECONDS_PER_DAY;
        let day: i64 = if local % SECONDS_PER_DAY < 0 { q - 1 } else { q };
        assert(day == self@.local_day());
        let m: i64 = (day + 3) % 7;
        let k: i64 = if m < 0 { m + 7 } else { m };
        assert(k == (day + 3) % 7);
        if k == 0 {
            Weekday::Mon
        } else if k == 1 {
            Weekday::Tue
        } else if k == 2 {
            Weekday::Wed
        } else if k == 3 {
            Weekday::Thu
        } else if k == 4 {
            Weekday::Fri
        } else if k == 5 {
            Weekday::Sat
        } else {
            Weekday::Sun
        }
    }

    /// The point `days` days later, at the same offset; nothing where that
    /// point is out of range.
    pub fn plus_days(&self, days: i64) -> (r: Option<Timestamp>)
        ensures
            r is Some <==> self@.plus_days(days as int).valid(),
            r matches Some(t) ==> t@ == self@.plus_days(days as int),
    {
        proof {
            use_type_invariant(self);
        }
        let secs: i128 = self.secs as i128 + 86_400 * (days as i128);
        if -(MAX_SECONDS as i128) <= secs && secs <= MAX_SECONDS as i128 {
            Some(Timestamp { secs: secs as i64, nanos: self.nanos, offset: self.offset })
        } else {
            None
        }
    }

    /// Whether this point lies strictly later than `other`.
    pub fn is_after(&self, other: &Timestamp) -> (r: bool)
        ensures
            r == self@.is_after(other@),
    {
        proof {
            use_type_invariant(self);
            use_type_invariant(other);
            assert(self@.secs > other@.secs ==> self@.secs * 1_000_000_000 >= other@.secs
                * 1_000_000_000 + 1_000_000_000) by (nonlinear_arith);
            assert(self@.secs < other@.secs ==> self@.secs * 1_000_000_000 + 1_000_000_000
                <= other@.secs * 1_000_000_000) by (nonlinear_arith);
        }
        self.secs > other.secs || (self.secs == other.secs && self.nanos > other.nanos)
    }

    /// The time from `earlier` to this point; negative where `earlier` is
    /// the later of the two.
    pub fn since(&self, earlier: &Timestamp) -> (r: Span)
        ensures
            r@ == self@.instant() - earlier@.instant(),
    {
        proof {
            use_type_invariant(self);
            use_type_invariant(earlier);
        }
        let secs: i128 = self.secs as i128 - earlier.secs as i128;
        let r = if self.nanos >= earlier.nanos {
            Span { secs, nanos: self.nanos - earlier.nanos }
        } else {
            Span { secs: secs - 1, nanos: NANOS_PER_SECOND - (earlier.nanos - self.nanos) }
        };
        assert(r@ == self@.instant() - earlier@.instant()) by (nonlinear_arith)
            requires
                r@ == r.secs * 1_000_000_000 + r.nanos,
                self@.instant() == self.secs * 1_000_000_000 + self.nanos,
                earlier@.instant() == earlier.secs * 1_000_000_000 + earlier.nanos,
                (r.secs == self.secs - earlier.secs && r.nanos == self.nanos - earlier.nanos) || (
                r.secs == self.secs - earlier.secs - 1 && r.nanos == 1_000_000_000 - (
                earlier.nanos - self.nanos)),
        ;
        r
    }
}

/// A length of time, to the nanosecond; it may be negative.
#[derive(Clone, Copy, Debug, PartialEq, Eq, Structural)]
pub struct Span {
    secs: i128,
    nanos: u32,
}

impl View for Span {
    type V = int;

    /// The length in nanoseconds.
    closed spec fn view(&self) -> int {
        self.secs * NANOS_PER_SECOND + self.nanos
    }
}

impl Span {
    #[verifier::type_invariant]
    closed spec fn well_formed(self) -> bool {
        self.nanos < NANOS_PER_SECOND
    }

    /// The span of `secs` seconds and `nanos` nanoseconds; nothing where
    /// `nanos` reaches a whole second.
    pub fn new(secs: i128, nanos: u32) -> (r: Option<Span>)
        ensures
            r is Some <==> nanos < NANOS_PER_SECOND,
            r matches Some(s) ==> s@ == secs * NANOS_PER_SECOND + nanos,
    {
        if nanos < NANOS_PER_SECOND {
            Some(Span { secs, nanos })
        } else {
            None
        }
    }

    /// The span of `secs` whole seconds.
    pub fn seconds(secs: i64) -> (r: Span)
        ensures
            r@ == secs * NANOS_PER_SECOND,
    {
        Span { secs: secs as i128, nanos: 0 }
    }

    /// The span of `hours` whole hours.
    pub fn hours(hours: i32) -> (r: Span)
        ensures
            r@ == hours * SECONDS_PER_HOUR * NANOS_PER_SECOND,
    {
        Span { secs: hours as i128 * 3_600, nanos: 0 }
    }

    /// The whole seconds of this span, rounded down.
    pub fn secs(&self) -> (r: i128)
        ensures
            r == self@ / (NANOS_PER_SECOND as int),
    {
        proof {
            use_type_invariant(self);
            assert(self@ / 1_000_000_000 == self.secs) by (nonlinear_arith)
                requires
                    self@ == self.secs * 1_000_000_000 + self.nanos,
                    0 <= self.nanos < 1_000_000_000,
            ;
        }
        self.secs
    }

    /// The nanoseconds beyond the whole seconds.
    pub fn subsec_nanos(&self) -> (r: u32)
        ensures
            r == self@ % (NANOS_PER_SECOND as int),
    {
        proof {
            use_type_invariant(self);
            assert(self@ % 1_000_000_000 == self.nanos) by (nonlinear_arith)
                requires
                    self@ == self.secs * 1_000_000_000 + self.nanos,
                    0 <= self.nanos < 1_000_000_000,
            ;
        }
        self.nanos
    }

    /// Whether this span is at most `other`.
    pub fn at_most(&self, other: &Span) -> (r: bool)
        ensures
            r == (self@ <= other@),
    {
        proof {
            use_type_invariant(self);
            use_type_invariant(other);
            assert(self.secs < other.secs ==> self.secs * 1_000_000_000 + 1_000_000_000
                <= other.secs * 1_000_000_000) by (nonlinear_arith);
            assert(self.secs > other.secs ==> self.secs * 1_000_000_000 >= other.secs
                * 1_000_000_000 + 1_000_000_000) by (nonlinear_arith);
        }
        self.secs < other.secs || (self.secs == other.secs && self.nanos <= other.nanos)
    }
}

} // verus!

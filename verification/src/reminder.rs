//! Reminders and the rules by which they come back.

use crate::text::{copy_text, text_of};
use crate::time::{Moment, Timestamp, Weekday};
use vstd::prelude::*;

verus! {

/// The days from `from` to the first day of `days` after it, counting from
/// `d` and stopping at 7.
pub open spec fn scan_days(days: Seq<Weekday>, from: Weekday, d: int) -> int
    decreases 7 - d,
{
    if d < 7 && !days.contains(from.plus(d)) {
        scan_days(days, from, d + 1)
    } else {
        d
    }
}

/// The days from `from` to the next day of the week that `days` holds: at
/// least 1, and 7 where the next such day is `from` itself.
pub open spec fn days_until(days: Seq<Weekday>, from: Weekday) -> int {
    scan_days(days, from, 1)
}

/// What a `Repeat` stands for.
pub enum Rule {
    Never,
    EveryDay,
    EveryNthDay(nat),
    EveryWeek,
    EveryNthWeek(nat),
    Weekly(Seq<Weekday>),
    Weekdays(Seq<Weekday>),
    EveryNthWeekday(nat, Weekday),
}

impl Rule {
    /// What is wrong with the rule, if anything: a rule that counts days or
    /// weeks must count at least one, and a rule that names days of the week
    /// must name at least one.
    pub open spec fn fault(self) -> Option<RecurrenceConfigError> {
        match self {
            Rule::EveryNthDay(n) if n == 0 => Some(RecurrenceConfigError::ZeroInterval),
            Rule::EveryNthWeek(n) if n == 0 => Some(RecurrenceConfigError::ZeroInterval),
            Rule::Weekly(days) if days.len() == 0 => Some(RecurrenceConfigError::EmptyWeekdays),
            Rule::Weekdays(days) if days.len() == 0 => Some(RecurrenceConfigError::EmptyWeekdays),
            _ => None,
        }
    }

    /// Whether the rule can be followed.
    pub open spec fn valid(self) -> bool {
        self.fault() is None
    }

    /// The days from a date that falls on `from` to the next occurrence.
    pub open spec fn step(self, from: Weekday) -> Option<int> {
        match self {
            Rule::Never => None,
            Rule::EveryDay => Some(1),
            Rule::EveryNthDay(n) => Some(n as int),
            Rule::EveryWeek => Some(7),
            Rule::EveryNthWeek(n) => Some(7 * (n as int)),
            Rule::Weekly(days) => Some(days_until(days, from)),
            Rule::Weekdays(days) => Some(days_until(days, from)),
            Rule::EveryNthWeekday(n, day) => Some(days_until(seq![day], from) + 7 * (n as int)),
        }
    }

    /// The occurrence that follows `reference`; none for `Never`, and none
    /// where it would lie out of range.
    pub open spec fn next(self, reference: Moment) -> Option<Moment> {
        match self.step(reference.weekday()) {
            Some(d) => if reference.plus_days(d).valid() {
                Some(reference.plus_days(d))
            } else {
                None
            },
            None => None,
        }
    }

    /// The first occurrence after `reference` that lies strictly after
    /// `now`: the occurrences are followed one by one for as long as they
    /// advance without passing `now`.
    pub open spec fn upcoming(self, reference: Moment, now: Moment) -> Option<Moment>
        decreases now.instant() - reference.instant(),
    {
        match self.next(reference) {
            Some(t) => if reference.instant() < t.instant() <= now.instant() {
                self.upcoming(t, now)
            } else {
                Some(t)
            },
            None => None,
        }
    }
}

/// The `k`th occurrence after `reference`, which is itself the occurrence
/// number 0; none from where the rule has no further occurrence.
pub open spec fn occurrence(rule: Rule, reference: Moment, k: nat) -> Option<Moment>
    decreases k,
{
    if k == 0 {
        Some(reference)
    } else {
        match occurrence(rule, reference, (k - 1) as nat) {
            Some(t) => rule.next(t),
            None => None,
        }
    }
}

/// The days from one occurrence to the next, for the rules that count days
/// or weeks.
pub open spec fn period(rule: Rule) -> Option<int> {
    match rule {
        Rule::EveryDay => Some(1),
        Rule::EveryNthDay(n) => Some(n as int),
        Rule::EveryWeek => Some(7),
        Rule::EveryNthWeek(n) => Some(7 * (n as int)),
        _ => None,
    }
}

/// The moment that an optional timestamp stands for.
pub open spec fn moment_of(t: Option<Timestamp>) -> Option<Moment> {
    match t {
        Some(t) => Some(t@),
        None => None,
    }
}

/// Where `days` holds a day at all, the next of them lies 1 to 7 days
/// after `from`, and none of them lies before it.
pub proof fn lemma_days_until(days: Seq<Weekday>, from: Weekday)
    requires
        days.len() > 0,
    ensures
        1 <= days_until(days, from) <= 7,
        days.contains(from.plus(days_until(days, from))),
        forall|e: int| 1 <= e < days_until(days, from) ==> !days.contains(#[trigger] from.plus(e)),
{
    lemma_scan_days(days, from, 1);
    if !days.contains(from.plus(days_until(days, from))) {
        let w = days[0];
        let e = (w.number() - from.number() + 6) % 7 + 1;
        assert(from.plus(e) == w);
        assert(days.contains(w));
    }
}

proof fn lemma_scan_days(days: Seq<Weekday>, from: Weekday, d: int)
    requires
        1 <= d <= 7,
    ensures
        d <= scan_days(days, from, d) <= 7,
        scan_days(days, from, d) < 7 ==> days.contains(from.plus(scan_days(days, from, d))),
        forall|e: int| d <= e < scan_days(days, from, d) ==> !days.contains(#[trigger] from.plus(e)),
    decreases 7 - d,
{
    if d < 7 && !days.contains(from.plus(d)) {
        lemma_scan_days(days, from, d + 1);
    }
}

/// A valid rule other than `Never` advances by at least one day.
pub proof fn lemma_step_advances(rule: Rule, from: Weekday)
    requires
        rule.valid(),
    ensures
        rule is Never <==> rule.step(from) is None,
        rule.step(from) matches Some(d) ==> d >= 1,
{
    match rule {
        Rule::Weekly(days) => {
            lemma_days_until(days, from);
        },
        Rule::Weekdays(days) => {
            lemma_days_until(days, from);
        },
        Rule::EveryNthWeekday(n, day) => {
            lemma_days_until(seq![day], from);
        },
        _ => {},
    }
}

/// The occurrence that follows a moment lies at least one day after it, at
/// the same offset.
pub proof fn lemma_next_advances(rule: Rule, reference: Moment)
    requires
        rule.valid(),
        reference.valid(),
    ensures
        rule.next(reference) matches Some(t) ==> t.valid() && t.offset == reference.offset
            && t.instant() >= reference.instant() + 86_400 * 1_000_000_000,
        rule is Never ==> rule.next(reference) is None,
{
    lemma_step_advances(rule, reference.weekday());
    match rule.next(reference) {
        Some(t) => {
            let d = rule.step(reference.weekday())->0;
            assert(t.instant() >= reference.instant() + 86_400 * 1_000_000_000)
                by (nonlinear_arith)
                requires
                    d >= 1,
                    t.secs == reference.secs + 86_400 * d,
                    t.nanos == reference.nanos,
                    reference.instant() == reference.secs * 1_000_000_000 + reference.nanos,
                    t.instant() == t.secs * 1_000_000_000 + t.nanos,
            ;
        },
        None => {},
    }
}

/// What comes up lies ahead: the upcoming occurrence, where there is one,
/// is strictly later than both `now` and `reference`.
pub proof fn lemma_upcoming_is_after(rule: Rule, reference: Moment, now: Moment)
    requires
        rule.valid(),
        reference.valid(),
    ensures
        rule.upcoming(reference, now) matches Some(t) ==> t.valid() && t.is_after(now)
            && t.is_after(reference) && t.offset == reference.offset,
        rule is Never ==> rule.upcoming(reference, now) is None,
    decreases now.instant() - reference.instant(),
{
    lemma_next_advances(rule, reference);
    match rule.next(reference) {
        Some(t) => {
            if t.instant() <= now.instant() {
                lemma_upcoming_is_after(rule, t, now);
            }
        },
        None => {},
    }
}

/// The occurrences after the one that follows are the occurrences after
/// `reference`, counted one further.
pub proof fn lemma_occurrence_shift(rule: Rule, reference: Moment, k: nat)
    ensures
        occurrence(rule, reference, k + 1) == match rule.next(reference) {
            Some(t) => occurrence(rule, t, k),
            None => None,
        },
    decreases k,
{
    if k > 0 {
        lemma_occurrence_shift(rule, reference, (k - 1) as nat);
    } else {
        assert(occurrence(rule, reference, 0) == Some(reference));
    }
}

/// What comes up is the first occurrence after now: it is one of the
/// occurrences after `reference`, it lies strictly after `now`, and every
/// occurrence before it does not. Where nothing comes up, the occurrences
/// end before one lies after `now`.
pub proof fn lemma_upcoming_is_first(rule: Rule, reference: Moment, now: Moment) -> (k: nat)
    requires
        rule.valid(),
        reference.valid(),
    ensures
        k >= 1,
        occurrence(rule, reference, k) == rule.upcoming(reference, now),
        rule.upcoming(reference, now) matches Some(t) ==> t.is_after(now),
        forall|j: nat|
            1 <= j < k ==> (#[trigger] occurrence(rule, reference, j) matches Some(u)
                && !u.is_after(now)),
    decreases now.instant() - reference.instant(),
{
    lemma_next_advances(rule, reference);
    lemma_occurrence_shift(rule, reference, 0);
    match rule.next(reference) {
        Some(t) => {
            if t.instant() <= now.instant() {
                let k = lemma_upcoming_is_first(rule, t, now);
                lemma_occurrence_shift(rule, reference, k);
                assert forall|j: nat| 1 <= j < k + 1 implies (#[trigger] occurrence(
                    rule,
                    reference,
                    j,
                ) matches Some(u) && !u.is_after(now)) by {
                    lemma_occurrence_shift(rule, reference, (j - 1) as nat);
                    if j > 1 {
                        assert(occurrence(rule, t, (j - 1) as nat) matches Some(u)
                            && !u.is_after(now));
                    }
                }
                k + 1
            } else {
                1
            }
        },
        None => 1,
    }
}

/// A rule that counts days or weeks comes back at equal distances: its
/// `k`th occurrence lies `k` periods after `reference`, as long as that is
/// in range.
pub proof fn lemma_periodic_occurrence(rule: Rule, reference: Moment, k: nat)
    requires
        period(rule) is Some,
        period(rule)->0 >= 0,
        reference.valid(),
        reference.plus_days(k * period(rule)->0).valid(),
    ensures
        occurrence(rule, reference, k) == Some(reference.plus_days(k * period(rule)->0)),
    decreases k,
{
    let p = period(rule)->0;
    if k > 0 {
        let before = reference.plus_days((k - 1) * p);
        assert(reference.secs <= before.secs <= reference.plus_days(k * p).secs) by (nonlinear_arith)
            requires
                k >= 1,
                p >= 0,
                before.secs == reference.secs + 86_400 * ((k - 1) * p),
                reference.plus_days(k * p).secs == reference.secs + 86_400 * (k * p),
        ;
        assert(before.valid());
        lemma_periodic_occurrence(rule, reference, (k - 1) as nat);
        assert(occurrence(rule, reference, (k - 1) as nat) == Some(before));
        assert(rule.step(before.weekday()) == Some(p));
        assert(before.plus_days(p) == reference.plus_days(k * p)) by (nonlinear_arith)
            requires
                before == reference.plus_days((k - 1) * p),
                before.plus_days(p).secs == before.secs + 86_400 * p,
                before.secs == reference.secs + 86_400 * ((k - 1) * p),
                reference.plus_days(k * p).secs == reference.secs + 86_400 * (k * p),
                before.plus_days(p).nanos == reference.plus_days(k * p).nanos,
                before.plus_days(p).offset == reference.plus_days(k * p).offset,
        ;
        assert(rule.next(before) == Some(reference.plus_days(k * p)));
    } else {
        assert(k * p == 0) by (nonlinear_arith)
            requires
                k == 0,
        ;
        assert(reference.plus_days(0) == reference);
    }
}

/// A rule was set up with no day of the week, or to come back every zero
/// days or weeks.
#[derive(Clone, Copy, Debug, PartialEq, Eq, Structural)]
pub enum RecurrenceConfigError {
    EmptyWeekdays,
    ZeroInterval,
}

/// A day of the week and a number of weeks to skip before it counts.
#[derive(Clone, Copy, Debug)]
pub struct NthWeekday {
    n: u32,
    weekday: Weekday,
}

impl NthWeekday {
    /// The number of weeks to skip.
    pub closed spec fn spec_n(&self) -> u32 {
        self.n
    }

    /// The day of the week.
    pub closed spec fn spec_weekday(&self) -> Weekday {
        self.weekday
    }

    /// The `weekday` that comes after `n` weeks were skipped.
    pub fn from(n: u32, weekday: Weekday) -> (r: Self)
        ensures
            r.n() == n,
            r.weekday() == weekday,
    {
        Self { n, weekday }
    }

    /// The number of weeks to skip.
    #[verifier::when_used_as_spec(spec_n)]
    pub fn n(&self) -> (r: u32)
        ensures
            r == self.n(),
    {
        self.n
    }

    /// The day of the week.
    #[verifier::when_used_as_spec(spec_weekday)]
    pub fn weekday(&self) -> (r: Weekday)
        ensures
            r == self.weekday(),
    {
        self.weekday
    }
}

/// How a reminder comes back.
#[derive(Debug)]
pub enum Repeat {
    Never,
    EveryDay,
    EveryNthDay(u32),
    EveryWeek,
    EveryNthWeek(u32),
    Weekly(Vec<Weekday>),
    Weekdays(Vec<Weekday>),
    EveryNthWeekday(NthWeekday),
}

impl View for Repeat {
    type V = Rule;

    open spec fn view(&self) -> Rule {
        match self {
            Repeat::Never => Rule::Never,
            Repeat::EveryDay => Rule::EveryDay,
            Repeat::EveryNthDay(n) => Rule::EveryNthDay(*n as nat),
            Repeat::EveryWeek => Rule::EveryWeek,
            Repeat::EveryNthWeek(n) => Rule::EveryNthWeek(*n as nat),
            Repeat::Weekly(days) => Rule::Weekly(days@),
            Repeat::Weekdays(days) => Rule::Weekdays(days@),
            Repeat::EveryNthWeekday(nth) => Rule::EveryNthWeekday(nth.n() as nat, nth.weekday()),
        }
    }
}

impl Clone for Repeat {
    fn clone(&self) -> (r: Self)
        ensures
            r@ == self@,
    {
        match self {
            Repeat::Never => Repeat::Never,
            Repeat::EveryDay => Repeat::EveryDay,
            Repeat::EveryNthDay(n) => Repeat::EveryNthDay(*n),
            Repeat::EveryWeek => Repeat::EveryWeek,
            Repeat::EveryNthWeek(n) => Repeat::EveryNthWeek(*n),
            Repeat::Weekly(days) => Repeat::Weekly(copy_days(days)),
            Repeat::Weekdays(days) => Repeat::Weekdays(copy_days(days)),
            Repeat::EveryNthWeekday(nth) => Repeat::EveryNthWeekday(*nth),
        }
    }
}

fn copy_days(days: &Vec<Weekday>) -> (r: Vec<Weekday>)
    ensures
        r@ == days@,
{
    let mut r: Vec<Weekday> = Vec::new();
    let mut i: usize = 0;
    while i < days.len()
        invariant
            i <= days@.len(),
            r@ == days@.subrange(0, i as int),
        decreases days@.len() - i,
    {
        r.push(days[i]);
        assert(r@ =~= days@.subrange(0, i + 1));
        i += 1;
    }
    assert(r@ =~= days@);
    r
}

fn holds_day(days: &Vec<Weekday>, day: Weekday) -> (r: bool)
    ensures
        r == days@.contains(day),
{
    let mut i: usize = 0;
    while i < days.len()
        invariant
            i <= days@.len(),
            forall|k: int| 0 <= k < i ==> days@[k] != day,
        decreases days@.len() - i,
    {
        if days[i] == day {
            return true;
        }
        i += 1;
    }
    false
}

fn count_days_until(days: &Vec<Weekday>, from: Weekday) -> (d: u32)
    requires
        days@.len() > 0,
    ensures
        d == days_until(days@, from),
        1 <= d <= 7,
{
    proof {
        lemma_days_until(days@, from);
    }
    let mut weekday = from.succ();
    let mut d: u32 = 1;
    while !holds_day(days, weekday)
        invariant
            1 <= d <= 7,
            weekday == from.plus(d as int),
            days_until(days@, from) == scan_days(days@, from, d as int),
            d <= days_until(days@, from) <= 7,
            days@.contains(from.plus(days_until(days@, from))),
        decreases 7 - d,
    {
        weekday = weekday.succ();
        d += 1;
    }
    d
}

fn count_days_until_day(day: Weekday, from: Weekday) -> (d: u32)
    ensures
        d == days_until(seq![day], from),
        1 <= d <= 7,
{
    proof {
        lemma_days_until(seq![day], from);
    }
    let mut weekday = from.succ();
    let mut d: u32 = 1;
    while weekday != day
        invariant
            1 <= d <= 7,
            weekday == from.plus(d as int),
            days_until(seq![day], from) == scan_days(seq![day], from, d as int),
            d <= days_until(seq![day], from) <= 7,
            seq![day].contains(from.plus(days_until(seq![day], from))),
        decreases 7 - d,
    {
        assert(!seq![day].contains(weekday));
        weekday = weekday.succ();
        d += 1;
    }
    assert(seq![day][0] == day);
    d
}

impl Repeat {
    /// Accepts the rule, or says what is wrong with it.
    pub fn validate(&self) -> (r: Result<(), RecurrenceConfigError>)
        ensures
            r is Ok <==> self@.valid(),
            r matches Err(e) ==> self@.fault() == Some(e),
    {
        match self {
            Repeat::EveryNthDay(n) => if *n == 0 {
                Err(RecurrenceConfigError::ZeroInterval)
            } else {
                Ok(())
            },
            Repeat::EveryNthWeek(n) => if *n == 0 {
                Err(RecurrenceConfigError::ZeroInterval)
            } else {
                Ok(())
            },
            Repeat::Weekly(days) => if days.len() == 0 {
                Err(RecurrenceConfigError::EmptyWeekdays)
            } else {
                Ok(())
            },
            Repeat::Weekdays(days) => if days.len() == 0 {
                Err(RecurrenceConfigError::EmptyWeekdays)
            } else {
                Ok(())
            },
            _ => Ok(()),
        }
    }

    /// The occurrence that follows `when_last`.
    pub fn when_next(&self, when_last: Timestamp) -> (r: Option<Timestamp>)
        requires
            self@.valid(),
        ensures
            moment_of(r) == self@.next(when_last@),
    {
        match self {
            Repeat::Never => None,
            Repeat::EveryDay => when_last.plus_days(1),
            Repeat::EveryNthDay(n) => when_last.plus_days(*n as i64),
            Repeat::EveryWeek => when_last.plus_days(7),
            Repeat::EveryNthWeek(n) => when_last.plus_days(7 * (*n as i64)),
            Repeat::Weekly(days) => {
                let d = count_days_until(days, when_last.weekday());
                when_last.plus_days(d as i64)
            },
            Repeat::Weekdays(days) => {
                let d = count_days_until(days, when_last.weekday());
                when_last.plus_days(d as i64)
            },
            Repeat::EveryNthWeekday(nth) => {
                let d = count_days_until_day(nth.weekday(), when_last.weekday());
                when_last.plus_days(d as i64 + 7 * (nth.n() as i64))
            },
        }
    }

    /// The first occurrence after `when_last` that lies strictly after
    /// `now`. Where no `now` is given, the clock is read once.
    pub fn when_upcoming(&self, when_last: Timestamp, now: Option<Timestamp>) -> (r: Option<
        Timestamp,
    >)
        requires
            self@.valid(),
        ensures
            now matches Some(n) ==> moment_of(r) == self@.upcoming(when_last@, n@),
            now is None ==> exists|n: Moment| n.valid() && moment_of(r) == self@.upcoming(
                when_last@,
                n,
            ),
            self@ is Never ==> r is None,
    {
        let now = match now {
            Some(n) => n,
            None => Timestamp::now(),
        };
        proof {
            use_type_invariant(&when_last);
            lemma_upcoming_is_after(self@, when_last@, now@);
        }
        self.upcoming_after(when_last, now)
    }

    fn upcoming_after(&self, when_last: Timestamp, now: Timestamp) -> (r: Option<Timestamp>)
        requires
            self@.valid(),
        ensures
            moment_of(r) == self@.upcoming(when_last@, now@),
    {
        let mut last = when_last;
        loop
            invariant
                self@.valid(),
                self@.upcoming(when_last@, now@) == self@.upcoming(last@, now@),
            decreases now@.instant() - last@.instant(),
        {
            let next = self.when_next(last);
            match next {
                None => {
                    return None;
                },
                Some(t) => {
                    proof {
                        use_type_invariant(&last);
                        lemma_next_advances(self@, last@);
                    }
                    if t.is_after(&now) {
                        return Some(t);
                    }
                    last = t;
                },
            }
        }
    }
}

/// Reminders as they are written down, one for each kind of rule.
pub const REMINDER_EXAMPLES: &'static str = "\n\
# This reminder will disappear once executed.\n\
\n\
- name: Test reminder once on 10 July 2020, at 8 am IST\n\
\x20\x20when: \"2020-07-10T08:00:00+05:30\"\n\
\x20\x20repeat: Never\n\
\n\
# The following reminders will reschedule themselves.\n\
\n\
- name: \"Test reminder everyday at 10:30 pm IST\"\n\
\x20\x20when: \"2020-07-10T22:30:00+05:30\"\n\
\x20\x20repeat: EveryDay\n\
\n\
- name: \"Test reminder every other day at 10:30 pm IST\"\n\
\x20\x20when: \"2020-07-10T22:30:00+05:30\"\n\
\x20\x20repeat:\n\
\x20\x20\x20\x20EveryNthDay: 2\n\
\n\
- name: Test reminder every week at 11 am IST\n\
\x20\x20when: \"2020-07-10T11:00:00+05:30\"\n\
\x20\x20repeat: EveryWeek\n\
\n\
- name: Test reminder every 3rd week at 11 am IST\n\
\x20\x20when: \"2020-07-10T11:00:00+05:30\"\n\
\x20\x20repeat:\n\
\x20\x20\x20\x20EveryNthWeek: 3\n\
\n\
- name: \"Test reminder every saturday and sunday at 9:15 am IST\"\n\
\x20\x20when: \"2020-07-10T09:15:00+05:30\"\n\
\x20\x20repeat:\n\
\x20\x20\x20\x20Weekdays:\n\
\x20\x20\x20\x20\x20\x20- Sat\n\
\x20\x20\x20\x20\x20\x20- Sun\n\
\n\
- name: \"Test reminder every 2nd saturday at 9:15 am IST\"\n\
\x20\x20when: \"2020-07-10T09:15:00+05:30\"\n\
\x20\x20repeat:\n\
\x20\x20\x20\x20EveryNthWeekday:\n\
\x20\x20\x20\x20\x20\x20n: 2\n\
\x20\x20\x20\x20\x20\x20weekday: Sat\n\
";

/// What a `Reminder` stands for.
pub struct ReminderView {
    pub name: Seq<char>,
    pub details: Option<Seq<char>>,
    pub when: Moment,
    pub repeat: Rule,
}

impl ReminderView {
    /// The time is in range and the rule is one that can be followed.
    pub open spec fn valid(self) -> bool {
        self.when.valid() && self.repeat.valid()
    }

    /// Whether the reminder is due at `now`: its time has come or passed.
    pub open spec fn is_due(self, now: Moment) -> bool {
        !self.when.is_after(now)
    }

    /// The same reminder at its first occurrence after `now`; none where
    /// the rule has no further occurrence.
    pub open spec fn upcoming(self, now: Moment) -> Option<ReminderView> {
        match self.repeat.upcoming(self.when, now) {
            Some(when) => Some(ReminderView { when, ..self }),
            None => None,
        }
    }
}

/// Something to be brought up at a given time, and again as its rule says.
#[derive(Debug)]
pub struct Reminder {
    name: String,
    details: Option<String>,
    when: Timestamp,
    repeat: Repeat,
}

impl View for Reminder {
    type V = ReminderView;

    closed spec fn view(&self) -> ReminderView {
        ReminderView {
            name: self.name@,
            details: text_of(self.details),
            when: self.when@,
            repeat: self.repeat@,
        }
    }
}

/// The reminder that an optional reminder stands for.
pub open spec fn reminder_of(r: Option<Reminder>) -> Option<ReminderView> {
    match r {
        Some(r) => Some(r@),
        None => None,
    }
}

impl Clone for Reminder {
    fn clone(&self) -> (r: Self)
        ensures
            r@ == self@,
    {
        proof {
            use_type_invariant(self);
        }
        Reminder {
            name: self.name.clone(),
            details: copy_text(&self.details),
            when: self.when,
            repeat: self.repeat.clone(),
        }
    }
}

impl Reminder {
    /// What every reminder keeps: a time in range and a rule that can be
    /// followed.
    #[verifier::type_invariant]
    pub open spec fn well_formed(self) -> bool {
        self@.valid()
    }

    /// A reminder for `when` that comes back as `repeat` says. A rule that
    /// cannot be followed is turned down here, so that no reminder holds one.
    pub fn new(name: String, details: Option<String>, when: Timestamp, repeat: Repeat) -> (r:
        Result<Reminder, RecurrenceConfigError>)
        ensures
            r is Ok <==> repeat@.valid(),
            r matches Ok(reminder) ==> reminder@ == (ReminderView {
                name: name@,
                details: text_of(details),
                when: when@,
                repeat: repeat@,
            }),
            r matches Err(e) ==> repeat@.fault() == Some(e),
    {
        proof {
            use_type_invariant(&when);
        }
        match repeat.validate() {
            Ok(()) => Ok(Reminder { name, details, when, repeat }),
            Err(e) => Err(e),
        }
    }

    /// What the reminder is about.
    pub fn name(&self) -> (r: &String)
        ensures
            r@ == self@.name,
    {
        &self.name
    }

    /// More about it, if there is more.
    pub fn details(&self) -> (r: &Option<String>)
        ensures
            text_of(*r) == self@.details,
    {
        &self.details
    }

    /// When the reminder is due.
    pub fn when(&self) -> (r: &Timestamp)
        ensures
            r@ == self@.when,
            self@.valid(),
    {
        proof {
            use_type_invariant(self);
        }
        &self.when
    }

    /// How the reminder comes back.
    pub fn repeat(&self) -> (r: &Repeat)
        ensures
            r@ == self@.repeat,
            self@.valid(),
    {
        proof {
            use_type_invariant(self);
        }
        &self.repeat
    }

    /// Reminders as they are written down, one for each kind of rule.
    pub fn examples() -> (r: &'static str)
        ensures
            r == REMINDER_EXAMPLES,
    {
        REMINDER_EXAMPLES
    }

    /// Whether the time of this reminder has come or passed at `now`.
    pub fn is_due(&self, now: &Timestamp) -> (r: bool)
        ensures
            r == self@.is_due(now@),
    {
        !self.when.is_after(now)
    }

    /// The same reminder at its first occurrence after `now`; none where
    /// the rule has no further occurrence. Where no `now` is given, the
    /// clock is read once.
    pub fn upcoming(&self, now: Option<Timestamp>) -> (r: Option<Reminder>)
        ensures
            now matches Some(n) ==> reminder_of(r) == self@.upcoming(n@),
            now is None ==> exists|n: Moment| n.valid() && reminder_of(r) == self@.upcoming(n),
            self@.repeat is Never ==> r is None,
    {
        proof {
            use_type_invariant(self);
        }
        match self.repeat.when_upcoming(self.when, now) {
            Some(when) => {
                proof {
                    use_type_invariant(&when);
                }
                Some(
                    Reminder {
                        name: self.name.clone(),
                        details: copy_text(&self.details),
                        when,
                        repeat: self.repeat.clone(),
                    },
                )
            },
            None => None,
        }
    }
}

} // verus!

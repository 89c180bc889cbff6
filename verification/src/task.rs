//! Tasks: a name, optional details, and the time at which the task began.

use crate::reminder::{Reminder, ReminderView};
use crate::text::{chars_of, copy_text, find_char, find_from, text_of, trim, trimmed};
use crate::time::{Moment, Timestamp};
use vstd::prelude::*;
use vstd::string::*;

verus! {

/// What goes in front of the name of a task that a reminder brought up: a
/// calendar sign and a space.
pub open spec fn calendar_mark() -> Seq<char> {
    seq!['\u{1F4C6}', ' ']
}

/// A line of `n` equals signs.
pub open spec fn underline(n: nat) -> Seq<char> {
    Seq::new(n, |i: int| '=')
}

/// The first line of `text`, without the line feed that ends it.
pub open spec fn head_line(text: Seq<char>) -> Seq<char> {
    match find_from(text, '\n', 0) {
        Some(i) => text.subrange(0, i),
        None => text,
    }
}

/// What follows the first line of `text`; nothing where `text` is one line.
pub open spec fn after_line(text: Seq<char>) -> Seq<char> {
    match find_from(text, '\n', 0) {
        Some(i) => if 0 <= i < text.len() {
            text.subrange(i + 1, text.len() as int)
        } else {
            Seq::empty()
        },
        None => Seq::empty(),
    }
}

/// `text` without the marks of a heading, a hash sign and a space each, at
/// its start.
pub open spec fn unmarked(text: Seq<char>) -> Seq<char>
    decreases text.len(),
{
    if text.len() >= 2 && text[0] == '#' && text[1] == ' ' {
        unmarked(text.subrange(2, text.len() as int))
    } else {
        text
    }
}

/// `text` with each line that ends in a carriage return and a line feed
/// ending in the line feed alone.
pub open spec fn unix_lines(text: Seq<char>) -> Seq<char>
    decreases text.len(),
{
    if text.len() == 0 {
        text
    } else if text.len() >= 2 && text[0] == '\r' && text[1] == '\n' {
        unix_lines(text.drop_first())
    } else {
        seq![text[0]] + unix_lines(text.drop_first())
    }
}

/// The name that a text gives to a task: its first line, without the marks
/// of a heading and without the white space around it.
pub open spec fn name_in(text: Seq<char>) -> Seq<char> {
    trim(unmarked(head_line(text)))
}

/// The details that a text gives to a task: what follows its second line,
/// without the white space around it; none where nothing is left.
pub open spec fn details_in(text: Seq<char>) -> Option<Seq<char>> {
    let details = trim(unix_lines(after_line(after_line(text))));
    if details.len() == 0 {
        None
    } else {
        Some(details)
    }
}

/// What a `Task` stands for.
pub struct TaskView {
    pub name: Seq<char>,
    pub details: Option<Seq<char>>,
    pub start: Moment,
}

impl TaskView {
    /// What tells one task from another: the name without the white space
    /// around it.
    pub open spec fn key(self) -> Seq<char> {
        trim(self.name)
    }

    /// The task under a new name and with new details; it began when it
    /// began.
    pub open spec fn edited(self, name: Seq<char>, details: Option<Seq<char>>) -> TaskView {
        TaskView { name, details, start: self.start }
    }

    /// The task with `details` in place of its own, where any are given.
    pub open spec fn refreshed(self, details: Option<Seq<char>>) -> TaskView {
        match details {
            Some(_) => TaskView { details, ..self },
            None => self,
        }
    }

    /// The task that `reminder` brings up at `now`.
    pub open spec fn from_reminder(reminder: ReminderView, now: Moment) -> TaskView {
        TaskView {
            name: calendar_mark() + reminder.name,
            details: reminder.details,
            start: now,
        }
    }

    /// The nanoseconds for which the task has been waiting at `now`.
    pub open spec fn age(self, now: Moment) -> int {
        now.instant() - self.start.instant()
    }

    /// The task as text: the name, a line of equals signs as long as the
    /// name, and the details or a note that there are none.
    pub open spec fn text(self) -> Seq<char> {
        let details = match self.details {
            Some(d) => d,
            None => "No details..."@,
        };
        self.name + seq!['\n'] + underline(self.name.len()) + seq!['\n'] + details
    }
}

/// Where `c` stands at `at` and nowhere before, that is where it is found.
pub proof fn lemma_found(text: Seq<char>, c: char, at: int, from: int)
    requires
        0 <= from <= at < text.len(),
        text[at] == c,
        forall|i: int| from <= i < at ==> text[i] != c,
    ensures
        find_from(text, c, from) == Some(at),
    decreases at - from,
{
    if from < at {
        lemma_found(text, c, at, from + 1);
    }
}

/// What is shown can be read again. A task whose name is one line without
/// white space around it or the mark of a heading before it, shown as text,
/// gives that name back; and its details come back as they are, where they
/// have no white space around them and no carriage return before a line
/// feed.
pub proof fn lemma_text_reads_back(task: TaskView)
    requires
        forall|i: int| 0 <= i < task.name.len() ==> task.name[i] != '\n',
        trim(task.name) == task.name,
        unmarked(task.name) == task.name,
        task.details matches Some(details) && details.len() > 0 && trim(details) == details
            && unix_lines(details) == details,
    ensures
        name_in(task.text()) == task.name,
        details_in(task.text()) == task.details,
{
    let text = task.text();
    let n = task.name.len() as int;
    let details = task.details->0;
    let rest = underline(n as nat) + seq!['\n'] + details;
    assert(text =~= task.name + seq!['\n'] + rest);
    assert(text[n] == '\n');
    assert forall|i: int| 0 <= i < n implies text[i] != '\n' by {
        assert(text[i] == task.name[i]);
    }
    lemma_found(text, '\n', n, 0);
    assert(text.subrange(0, n) =~= task.name);
    assert(text.subrange(n + 1, text.len() as int) =~= rest);
    assert(rest[n] == '\n');
    assert forall|i: int| 0 <= i < n implies rest[i] != '\n' by {
        assert(rest[i] == '=');
    }
    lemma_found(rest, '\n', n, 0);
    assert(rest.subrange(n + 1, rest.len() as int) =~= details);
}

/// Something to do.
#[derive(Debug)]
pub struct Task {
    name: String,
    details: Option<String>,
    start: Timestamp,
}

impl View for Task {
    type V = TaskView;

    closed spec fn view(&self) -> TaskView {
        TaskView { name: self.name@, details: text_of(self.details), start: self.start@ }
    }
}

/// The task that an optional task stands for.
pub open spec fn task_of(t: Option<Task>) -> Option<TaskView> {
    match t {
        Some(t) => Some(t@),
        None => None,
    }
}

impl Clone for Task {
    fn clone(&self) -> (r: Self)
        ensures
            r@ == self@,
    {
        Task { name: self.name.clone(), details: copy_text(&self.details), start: self.start }
    }
}

impl Task {
    /// A task that begins now, by the clock.
    pub fn new(name: String) -> (r: Self)
        ensures
            r@.name == name@,
            r@.details is None,
            r@.start.valid(),
    {
        Task::started(name, None, Timestamp::now())
    }

    /// A task that began at `start`.
    pub fn started(name: String, details: Option<String>, start: Timestamp) -> (r: Self)
        ensures
            r@ == (TaskView { name: name@, details: text_of(details), start: start@ }),
            r@.start.valid(),
    {
        proof {
            use_type_invariant(&start);
        }
        Task { name, details, start }
    }

    /// What is to be done.
    pub fn name(&self) -> (r: &String)
        ensures
            r@ == self@.name,
    {
        &self.name
    }

    /// More about it, if there is more.
    pub fn details(&self) -> (r: &Option<String>)
        ensures
            text_of(*r) == self@.details,
    {
        &self.details
    }

    /// When the task began.
    pub fn start(&self) -> (r: &Timestamp)
        ensures
            r@ == self@.start,
            self@.start.valid(),
    {
        proof {
            use_type_invariant(&self.start);
        }
        &self.start
    }

    /// Gives the task a new name and new details. When it began stays as it
    /// was.
    pub fn edit(&mut self, name: String, details: Option<String>)
        ensures
            final(self)@ == old(self)@.edited(name@, text_of(details)),
    {
        self.name = name;
        self.details = details;
    }

    /// The task with the details of `later` in place of its own, where
    /// `later` has any.
    pub fn refreshed(self, later: Task) -> (r: Self)
        ensures
            r@ == self@.refreshed(later@.details),
    {
        match later.details {
            Some(d) => Task { name: self.name, details: Some(d), start: self.start },
            None => self,
        }
    }

    /// The task that `reminder` brings up now, by the clock.
    pub fn from_reminder(reminder: &Reminder) -> (r: Self)
        ensures
            r@.name == calendar_mark() + reminder@.name,
            r@.details == reminder@.details,
            r@.start.valid(),
    {
        Task::from_reminder_at(reminder, Timestamp::now())
    }

    /// The task that `reminder` brings up at `now`.
    pub fn from_reminder_at(reminder: &Reminder, now: Timestamp) -> (r: Self)
        ensures
            r@ == TaskView::from_reminder(reminder@, now@),
            r@.start.valid(),
    {
        let mut name = String::from_str("\u{1F4C6} ");
        proof {
            reveal_strlit("\u{1F4C6} ");
            assert(name@ =~= calendar_mark());
            use_type_invariant(&now);
        }
        name.append(reminder.name().as_str());
        Task { name, details: copy_text(reminder.details()), start: now }
    }

    /// The task as text: the name, a line of equals signs as long as the
    /// name, and the details or a note that there are none.
    pub fn to_text(&self) -> (r: String)
        ensures
            r@ == self@.text(),
    {
        let mut text = self.name.clone();
        text.append("\n");
        let n = self.name.as_str().unicode_len();
        let mut i: usize = 0;
        proof {
            reveal_strlit("\n");
            reveal_strlit("=");
            assert("\n"@ =~= seq!['\n']);
            assert("="@ =~= seq!['=']);
            assert(text@ =~= self@.name + seq!['\n'] + underline(0));
        }
        while i < n
            invariant
                i <= n,
                n == self@.name.len(),
                "="@ == seq!['='],
                text@ == self@.name + seq!['\n'] + underline(i as nat),
            decreases n - i,
        {
            text.append("=");
            i += 1;
            assert(text@ =~= self@.name + seq!['\n'] + underline(i as nat));
        }
        text.append("\n");
        match &self.details {
            Some(d) => text.append(d.as_str()),
            None => text.append("No details..."),
        }
        text
    }

    /// The name and the details that a text gives to a task. The first line
    /// is the name, the second is passed over, and what follows is the
    /// details. A text without a line gives nothing.
    pub fn parse(text: &str) -> (r: Option<(String, Option<String>)>)
        ensures
            r is None <==> text@.len() == 0,
            r matches Some((name, details)) ==> name@ == name_in(text@) && text_of(details)
                == details_in(text@),
    {
        let chars = chars_of(text);
        let n = chars.len();
        if n == 0 {
            return None;
        }
        let (head, rest) = match find_char(&chars, '\n') {
            Some(i) => (text.substring_char(0, i), text.substring_char(i + 1, n)),
            None => (text, text.substring_char(n, n)),
        };
        let name = trimmed(without_marks(head)).to_owned();
        let more = chars_of(rest);
        let m = more.len();
        let body = match find_char(&more, '\n') {
            Some(j) => rest.substring_char(j + 1, m),
            None => rest.substring_char(m, m),
        };
        let lines = with_unix_lines(body);
        let details = trimmed(lines.as_str());
        if details.unicode_len() == 0 {
            Some((name, None))
        } else {
            Some((name, Some(details.to_owned())))
        }
    }
}

/// `text` without the marks of a heading at its start.
fn without_marks(text: &str) -> (r: &str)
    ensures
        r@ == unmarked(text@),
{
    let chars = chars_of(text);
    let n = chars.len();
    let mut i: usize = 0;
    assert(text@.subrange(0, n as int) =~= text@);
    while n - i >= 2 && chars[i] == '#' && chars[i + 1] == ' '
        invariant
            i <= n,
            n == chars@.len(),
            chars@ == text@,
            unmarked(text@) == unmarked(text@.subrange(i as int, n as int)),
        decreases n - i,
    {
        assert(text@.subrange(i as int, n as int).subrange(2, n - i) =~= text@.subrange(
            i + 2,
            n as int,
        ));
        i += 2;
    }
    text.substring_char(i, n)
}

/// `text` with each carriage return before a line feed left out.
fn with_unix_lines(text: &str) -> (r: String)
    ensures
        r@ == unix_lines(text@),
{
    let chars = chars_of(text);
    let n = chars.len();
    let mut out = String::new();
    let mut start: usize = 0;
    let mut i: usize = 0;
    assert(text@.subrange(0, n as int) =~= text@);
    assert(out@ + text@.subrange(0, 0) + unix_lines(text@) =~= unix_lines(text@));
    while i < n
        invariant
            start <= i <= n,
            n == chars@.len(),
            chars@ == text@,
            unix_lines(text@) == out@ + text@.subrange(start as int, i as int) + unix_lines(
                text@.subrange(i as int, n as int),
            ),
        decreases n - i,
    {
        let ghost tail = text@.subrange(i as int, n as int);
        assert(tail.drop_first() =~= text@.subrange(i + 1, n as int));
        assert(tail[0] == chars@[i as int]);
        if chars[i] == '\r' && i + 1 < n && chars[i + 1] == '\n' {
            assert(tail[1] == chars@[i + 1]);
            out.append(text.substring_char(start, i));
            start = i + 1;
            assert(text@.subrange(start as int, start as int) =~= Seq::<char>::empty());
            assert(out@ + text@.subrange(start as int, start as int) =~= out@);
        } else {
            assert(tail.len() >= 2 ==> tail[1] == text@[i + 1]);
            assert(text@.subrange(start as int, i as int) + seq![tail[0]] =~= text@.subrange(
                start as int,
                i + 1,
            ));
            assert(out@ + text@.subrange(start as int, i as int) + (seq![tail[0]] + unix_lines(
                tail.drop_first(),
            )) =~= out@ + text@.subrange(start as int, i + 1) + unix_lines(tail.drop_first()));
        }
        i += 1;
    }
    assert(text@.subrange(n as int, n as int) =~= Seq::<char>::empty());
    assert(out@ + text@.subrange(start as int, n as int) + Seq::<char>::empty() =~= out@
        + text@.subrange(start as int, n as int));
    out.append(text.substring_char(start, n));
    out
}

} // verus!

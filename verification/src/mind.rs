//! The mind: a stack of tasks, of which the last is the current one, and
//! the reminders that will bring up more.

use crate::command::{Command, Intent};
use crate::productivity::Productivity;
use crate::reminder::{RecurrenceConfigError, Reminder, ReminderView, Repeat, Rule};
use crate::task::{task_of, Task, TaskView};
use crate::text::{copy_text, same_trimmed, text_of, trim};
use crate::time::{Moment, Span, Timestamp, NANOS_PER_SECOND};
use vstd::prelude::*;

verus! {

/// What the tasks of a vector stand for.
pub open spec fn task_views(tasks: Seq<Task>) -> Seq<TaskView> {
    tasks.map_values(|t: Task| t@)
}

/// What the reminders of a vector stand for.
pub open spec fn reminder_views(reminders: Seq<Reminder>) -> Seq<ReminderView> {
    reminders.map_values(|r: Reminder| r@)
}

/// The first position at or after `from` of a task with the key `key`.
pub open spec fn position_from(tasks: Seq<TaskView>, key: Seq<char>, from: int) -> Option<int>
    decreases tasks.len() - from,
{
    if from < 0 || from >= tasks.len() {
        None
    } else if tasks[from].key() == key {
        Some(from)
    } else {
        position_from(tasks, key, from + 1)
    }
}

/// The first position of a task with the key `key`.
pub open spec fn position(tasks: Seq<TaskView>, key: Seq<char>) -> Option<int> {
    position_from(tasks, key, 0)
}

/// The stack after `task` is pushed. Where a task of the same key is in the
/// stack, the first such task moves to the end, keeps its name and its
/// start, and takes the details of `task`, if `task` has any. Otherwise
/// `task` itself goes to the end.
pub open spec fn pushed(tasks: Seq<TaskView>, task: TaskView) -> Seq<TaskView> {
    match position(tasks, task.key()) {
        Some(i) => tasks.remove(i).push(tasks[i].refreshed(task.details)),
        None => tasks.push(task),
    }
}

/// No two tasks have the same key.
pub open spec fn distinct(tasks: Seq<TaskView>) -> bool {
    forall|i: int, j: int| 0 <= i < j < tasks.len() ==> tasks[i].key() != tasks[j].key()
}

/// The reminder that the task `task` turns into.
pub open spec fn reminder_from(task: TaskView, anchor: Moment, repeat: Rule) -> ReminderView {
    ReminderView { name: task.name, details: task.details, when: anchor, repeat }
}

/// The stack and the reminders after the reminders were gone through at
/// `now`, in order. One that is not due is kept. One that is due pushes its
/// task, and is kept at its upcoming occurrence where it has one.
pub open spec fn promoted(tasks: Seq<TaskView>, reminders: Seq<ReminderView>, now: Moment) -> (
    Seq<TaskView>,
    Seq<ReminderView>,
)
    decreases reminders.len(),
{
    if reminders.len() == 0 {
        (tasks, Seq::empty())
    } else {
        let (stack, kept) = promoted(tasks, reminders.drop_last(), now);
        let reminder = reminders.last();
        if reminder.is_due(now) {
            (
                pushed(stack, TaskView::from_reminder(reminder, now)),
                match reminder.upcoming(now) {
                    Some(next) => kept.push(next),
                    None => kept,
                },
            )
        } else {
            (stack, kept.push(reminder))
        }
    }
}

/// The sum of the ages of the tasks at `now`, in nanoseconds.
pub open spec fn backlog_of(tasks: Seq<TaskView>, now: Moment) -> int
    decreases tasks.len(),
{
    if tasks.len() == 0 {
        0
    } else {
        backlog_of(tasks.drop_last(), now) + tasks.last().age(now)
    }
}

/// What is left to do outside the mind after a command was acted on.
#[derive(Clone, Copy, Debug, PartialEq, Eq, Structural)]
pub enum Effect {
    /// Nothing.
    Nothing,
    /// The task at this position is to be edited by the user.
    EditTask(usize),
    /// The reminders are to be edited by the user.
    EditReminders,
}

/// What a `Mind` stands for.
pub struct MindView {
    pub tasks: Seq<TaskView>,
    pub reminders: Seq<ReminderView>,
    pub focused: Option<int>,
}

impl MindView {
    /// Every time is in range, every rule can be followed, and the focus,
    /// if set, is on a task of the stack.
    pub open spec fn valid(self) -> bool {
        &&& forall|i: int| 0 <= i < self.tasks.len() ==> (#[trigger] self.tasks[i]).start.valid()
        &&& forall|i: int| 0 <= i < self.reminders.len() ==> (#[trigger] self.reminders[i]).valid()
        &&& self.focus_in_range()
    }

    /// The focus, if set, is on a task of the stack.
    pub open spec fn focus_in_range(self) -> bool {
        self.focused matches Some(i) ==> 0 <= i < self.tasks.len()
    }

    /// No two tasks have the same key.
    pub open spec fn distinct(self) -> bool {
        distinct(self.tasks)
    }

    /// No reminder is due at `now`.
    pub open spec fn settled(self, now: Moment) -> bool {
        forall|i: int| 0 <= i < self.reminders.len() ==> !(#[trigger] self.reminders[i]).is_due(now)
    }

    /// Whether `index` is the position of a task.
    pub open spec fn holds(self, index: int) -> bool {
        0 <= index < self.tasks.len()
    }

    /// The same without a focus.
    pub open spec fn unfocused(self) -> MindView {
        MindView { focused: None, ..self }
    }

    /// The mind after `task` was pushed.
    pub open spec fn push(self, task: TaskView) -> MindView {
        MindView { tasks: pushed(self.tasks, task), focused: None, ..self }
    }

    /// The task that `pop` takes.
    pub open spec fn last(self) -> Option<TaskView> {
        if self.tasks.len() > 0 {
            Some(self.tasks.last())
        } else {
            None
        }
    }

    /// The task at `index`, if there is one.
    pub open spec fn at(self, index: int) -> Option<TaskView> {
        if self.holds(index) {
            Some(self.tasks[index])
        } else {
            None
        }
    }

    /// The mind after the task at `index` was taken off; out of range, only the
    /// focus goes.
    pub open spec fn pop_at(self, index: int) -> MindView {
        if self.holds(index) {
            MindView { tasks: self.tasks.remove(index), focused: None, ..self }
        } else {
            self.unfocused()
        }
    }

    /// The mind after the current task was taken off.
    pub open spec fn pop(self) -> MindView {
        self.pop_at(self.tasks.len() - 1)
    }

    /// The mind after the task at `index` became the current one; out of
    /// range, only the focus goes.
    pub open spec fn resume(self, index: int) -> MindView {
        if self.holds(index) {
            MindView {
                tasks: self.tasks.remove(index).push(self.tasks[index]),
                focused: None,
                ..self
            }
        } else {
            self.unfocused()
        }
    }

    /// The mind with the focus on the task at `index`, or on none out of range.
    pub open spec fn get(self, index: int) -> MindView {
        MindView { focused: if self.holds(index) { Some(index) } else { None }, ..self }
    }

    /// The mind with the focus on the current task, or on none where there is
    /// none.
    pub open spec fn get_last(self) -> MindView {
        self.get(self.tasks.len() - 1)
    }

    /// The mind after the task at `index` got a new name and new details.
    pub open spec fn edit(self, index: int, name: Seq<char>, details: Option<Seq<char>>) -> MindView {
        MindView {
            tasks: self.tasks.update(index, self.tasks[index].edited(name, details)),
            focused: None,
            ..self
        }
    }

    /// The mind after the task at `index` was turned into a reminder, which
    /// stands before the others.
    pub open spec fn remind(self, index: int, anchor: Moment, repeat: Rule) -> MindView {
        MindView {
            tasks: self.tasks.remove(index),
            reminders: seq![reminder_from(self.tasks[index], anchor, repeat)] + self.reminders,
            focused: None,
        }
    }

    /// The mind after the reminders were gone through at `now`.
    pub open spec fn remind_tasks(self, now: Moment) -> MindView {
        MindView {
            tasks: promoted(self.tasks, self.reminders, now).0,
            reminders: promoted(self.tasks, self.reminders, now).1,
            focused: None,
        }
    }

    /// The sum of the ages of the tasks at `now`, in nanoseconds.
    pub open spec fn backlog(self, now: Moment) -> int {
        backlog_of(self.tasks, now)
    }

    /// The mind after `intent` was acted on at `now`. Of a request to edit
    /// only the part that is done inside the mind is done.
    pub open spec fn act(self, intent: Intent, now: Moment) -> MindView {
        match intent {
            Intent::Push(name) => self.push(TaskView { name, details: None, start: now }),
            Intent::Continue(index) => self.resume(index as int),
            Intent::Get(index) => self.get(index as int),
            Intent::GetLast => self.get_last(),
            Intent::Pop(index) => self.pop_at(index as int),
            Intent::PopLast => self.pop(),
            Intent::Remind(index) => if self.holds(index as int) {
                self.remind(index as int, now, Rule::Never)
            } else {
                self.unfocused()
            },
            Intent::RemindLast => if self.tasks.len() > 0 {
                self.remind(self.tasks.len() - 1, now, Rule::Never)
            } else {
                self.unfocused()
            },
            _ => self.unfocused(),
        }
    }

    /// What `intent` leaves to be done outside the mind.
    pub open spec fn effect(self, intent: Intent) -> Effect {
        match intent {
            Intent::Edit(index) => if self.holds(index as int) {
                Effect::EditTask(index)
            } else {
                Effect::Nothing
            },
            Intent::EditLast => if self.tasks.len() > 0 {
                Effect::EditTask((self.tasks.len() - 1) as usize)
            } else {
                Effect::Nothing
            },
            Intent::Remind(index) => if self.holds(index as int) {
                Effect::EditReminders
            } else {
                Effect::Nothing
            },
            Intent::RemindLast => if self.tasks.len() > 0 {
                Effect::EditReminders
            } else {
                Effect::Nothing
            },
            Intent::EditReminders => Effect::EditReminders,
            _ => Effect::Nothing,
        }
    }
}

/// The productive mind.
#[derive(Debug)]
pub struct Mind {
    tasks: Vec<Task>,
    reminders: Vec<Reminder>,
    focused: Option<usize>,
}

impl View for Mind {
    type V = MindView;

    closed spec fn view(&self) -> MindView {
        MindView {
            tasks: task_views(self.tasks@),
            reminders: reminder_views(self.reminders@),
            focused: match self.focused {
                Some(i) => Some(i as int),
                None => None,
            },
        }
    }
}

impl Default for Mind {
    fn default() -> (r: Self)
        ensures
            r@ == (MindView { tasks: Seq::empty(), reminders: Seq::empty(), focused: None }),
    {
        let r = Mind { tasks: Vec::new(), reminders: Vec::new(), focused: None };
        assert(r@.tasks =~= Seq::empty());
        assert(r@.reminders =~= Seq::empty());
        r
    }
}

impl Mind {
    /// A mind of these tasks and reminders, with nothing in focus. The tasks
    /// are taken as they come: nothing is done about two of the same name.
    pub fn from(tasks: Vec<Task>, reminders: Vec<Reminder>) -> (r: Self)
        ensures
            r@ == (MindView {
                tasks: task_views(tasks@),
                reminders: reminder_views(reminders@),
                focused: None,
            }),
    {
        Self { tasks, reminders, focused: None }
    }

    /// The version of the program.
    pub fn version() -> (r: &'static str)
        ensures
            r@ == "0.7.4"@,
    {
        "0.7.4"
    }

    /// The tasks, the oldest first and the current one last.
    pub fn tasks(&self) -> (r: &Vec<Task>)
        ensures
            task_views(r@) == self@.tasks,
    {
        &self.tasks
    }

    /// The reminders.
    pub fn reminders(&self) -> (r: &Vec<Reminder>)
        ensures
            reminder_views(r@) == self@.reminders,
    {
        &self.reminders
    }

    /// The position of the task in focus.
    pub fn focus(&self) -> (r: Option<usize>)
        ensures
            match self@.focused {
                Some(i) if self@.holds(i) => r == Some(i as usize),
                _ => r is None,
            },
    {
        match self.focused {
            Some(index) => if index < self.tasks.len() {
                Some(index)
            } else {
                None
            },
            None => None,
        }
    }

    /// The task in focus.
    pub fn focused(&self) -> (r: Option<&Task>)
        ensures
            match self@.focused {
                Some(i) if self@.holds(i) => r matches Some(t) && t@ == self@.tasks[i],
                _ => r is None,
            },
    {
        match self.focused {
            Some(index) => if index < self.tasks.len() {
                Some(&self.tasks[index])
            } else {
                None
            },
            None => None,
        }
    }

    fn find(&self, name: &str) -> (r: Option<usize>)
        ensures
            r matches Some(i) ==> position(self@.tasks, trim(name@)) == Some(i as int) && i
                < self.tasks@.len(),
            r is None ==> position(self@.tasks, trim(name@)) is None,
    {
        let mut i: usize = 0;
        while i < self.tasks.len()
            invariant
                i <= self.tasks@.len(),
                position(self@.tasks, trim(name@)) == position_from(
                    self@.tasks,
                    trim(name@),
                    i as int,
                ),
            decreases self.tasks@.len() - i,
        {
            if same_trimmed(self.tasks[i].name().as_str(), name) {
                return Some(i);
            }
            i += 1;
        }
        None
    }

    fn place(&mut self, task: Task)
        requires
            old(self).focused is None,
        ensures
            final(self).focused is None,
            final(self).reminders == old(self).reminders,
            task_views(final(self).tasks@) == pushed(task_views(old(self).tasks@), task@),
    {
        match self.find(task.name().as_str()) {
            Some(index) => {
                let ghost before = self.tasks@;
                let existing = self.tasks.remove(index);
                let moved = existing.refreshed(task);
                self.tasks.push(moved);
                assert(task_views(self.tasks@) =~= task_views(before).remove(index as int).push(
                    moved@,
                ));
            },
            None => {
                let ghost before = self.tasks@;
                self.tasks.push(task);
                assert(task_views(self.tasks@) =~= task_views(before).push(task@));
            },
        }
    }

    /// Pushes `task`. Where a task of the same name, white space around it
    /// set aside, is in the stack already, that task becomes the current one
    /// and keeps its start.
    pub fn push(&mut self, task: Task)
        ensures
            final(self)@ == old(self)@.push(task@),
    {
        self.focused = None;
        self.place(task);
    }

    /// Takes the current task off the stack.
    pub fn pop(&mut self) -> (r: Option<Task>)
        ensures
            final(self)@ == old(self)@.pop(),
            task_of(r) == old(self)@.last(),
    {
        self.focused = None;
        let ghost before = self.tasks@;
        let r = self.tasks.pop();
        proof {
            if before.len() > 0 {
                assert(task_views(self.tasks@) =~= task_views(before).remove(before.len() - 1));
            }
        }
        r
    }

    /// Takes the task at `index` off the stack, if there is one.
    pub fn pop_at(&mut self, index: usize) -> (r: Option<Task>)
        ensures
            final(self)@ == old(self)@.pop_at(index as int),
            task_of(r) == old(self)@.at(index as int),
    {
        self.focused = None;
        if index < self.tasks.len() {
            let ghost before = self.tasks@;
            let task = self.tasks.remove(index);
            assert(task_views(self.tasks@) =~= task_views(before).remove(index as int));
            Some(task)
        } else {
            None
        }
    }

    /// Continues with the task at `index`, if there is one: it becomes the
    /// current task.
    pub fn resume(&mut self, index: usize)
        ensures
            final(self)@ == old(self)@.resume(index as int),
    {
        self.focused = None;
        if index < self.tasks.len() {
            let ghost before = self.tasks@;
            let task = self.tasks.remove(index);
            self.tasks.push(task);
            assert(task_views(self.tasks@) =~= task_views(before).remove(index as int).push(
                task_views(before)[index as int],
            ));
        }
    }

    /// Puts the task at `index` in focus, if there is one; else nothing is
    /// in focus.
    pub fn get(&mut self, index: usize)
        ensures
            final(self)@ == old(self)@.get(index as int),
    {
        if index < self.tasks.len() {
            self.focused = Some(index);
        } else {
            self.focused = None;
        }
    }

    /// Puts the current task in focus, if there is one.
    pub fn get_last(&mut self)
        ensures
            final(self)@ == old(self)@.get_last(),
    {
        if self.tasks.len() > 0 {
            self.focused = Some(self.tasks.len() - 1);
        } else {
            self.focused = None;
        }
    }

    /// Gives the task at `index` a new name and new details.
    pub fn edit(&mut self, index: usize, name: String, details: Option<String>)
        requires
            old(self)@.holds(index as int),
        ensures
            final(self)@ == old(self)@.edit(index as int, name@, text_of(details)),
    {
        self.focused = None;
        let ghost before = self.tasks@;
        let mut task = self.tasks.remove(index);
        task.edit(name, details);
        self.tasks.insert(index, task);
        assert(task_views(self.tasks@) =~= task_views(before).update(
            index as int,
            task_views(before)[index as int].edited(name@, text_of(details)),
        ));
    }

    /// Turns the task at `index` into a reminder for `anchor` that comes
    /// back as `repeat` says, and puts it before the other reminders. A rule
    /// that cannot be followed is turned down, and nothing changes.
    pub fn remind(&mut self, index: usize, anchor: Timestamp, repeat: Repeat) -> (r: Result<
        (),
        RecurrenceConfigError,
    >)
        requires
            old(self)@.holds(index as int),
        ensures
            r is Ok <==> repeat@.valid(),
            r is Ok ==> final(self)@ == old(self)@.remind(index as int, anchor@, repeat@),
            r matches Err(e) ==> final(self)@ == old(self)@ && repeat@.fault() == Some(e),
    {
        let task = &self.tasks[index];
        let made = Reminder::new(task.name().clone(), copy_text(task.details()), anchor, repeat);
        match made {
            Ok(reminder) => {
                self.focused = None;
                let ghost tasks = self.tasks@;
                let ghost reminders = self.reminders@;
                self.tasks.remove(index);
                self.reminders.insert(0, reminder);
                assert(task_views(self.tasks@) =~= task_views(tasks).remove(index as int));
                assert(reminder_views(self.reminders@) =~= seq![reminder@] + reminder_views(
                    reminders,
                ));
                Ok(())
            },
            Err(e) => Err(e),
        }
    }

    /// Turns the task at `index` into a reminder for now, by the clock, that
    /// does not come back.
    pub fn task_to_reminder(&mut self, index: usize)
        requires
            old(self)@.holds(index as int),
        ensures
            exists|now: Moment|
                now.valid() && final(self)@ == old(self)@.remind(index as int, now, Rule::Never),
    {
        let now = Timestamp::now();
        let r = self.remind(index, now, Repeat::Never);
        assert(r is Ok);
        assert(final(self)@ == old(self)@.remind(index as int, now@, Rule::Never));
    }

    /// Puts `reminders` in the place of the reminders.
    pub fn set_reminders(&mut self, reminders: Vec<Reminder>)
        ensures
            final(self)@ == (MindView {
                reminders: reminder_views(reminders@),
                focused: None,
                ..old(self)@
            }),
    {
        self.focused = None;
        self.reminders = reminders;
    }

    /// Goes through the reminders at `now`. Each one that is due pushes a
    /// task that begins at `now`, then moves on to its first occurrence
    /// after `now`, or leaves for good where it has none.
    pub fn remind_tasks_at(&mut self, now: Timestamp)
        ensures
            final(self)@ == old(self)@.remind_tasks(now@),
    {
        self.focused = None;
        let mut kept: Vec<Reminder> = Vec::new();
        let mut i: usize = 0;
        let ghost tasks = task_views(self.tasks@);
        let ghost reminders = reminder_views(self.reminders@);
        assert(reminders.subrange(0, 0) =~= Seq::empty());
        assert(kept@.map_values(|r: Reminder| r@) =~= Seq::empty());
        while i < self.reminders.len()
            invariant
                i <= self.reminders@.len(),
                self.focused is None,
                reminder_views(self.reminders@) == reminders,
                promoted(tasks, reminders.subrange(0, i as int), now@) == (
                    task_views(self.tasks@),
                    reminder_views(kept@),
                ),
            decreases self.reminders@.len() - i,
        {
            let reminder = self.reminders[i].clone();
            let ghost before = kept@;
            proof {
                assert(reminders.subrange(0, i + 1).drop_last() =~= reminders.subrange(0, i as int));
                assert(reminders.subrange(0, i + 1).last() == reminder@);
            }
            if reminder.is_due(&now) {
                self.place(Task::from_reminder_at(&reminder, now));
                match reminder.upcoming(Some(now)) {
                    Some(next) => {
                        kept.push(next);
                        assert(reminder_views(kept@) =~= reminder_views(before).push(next@));
                    },
                    None => {},
                }
            } else {
                kept.push(reminder);
                assert(reminder_views(kept@) =~= reminder_views(before).push(reminder@));
            }
            i += 1;
        }
        assert(reminders.subrange(0, i as int) =~= reminders);
        self.reminders = kept;
    }

    /// Goes through the reminders now, by the clock.
    pub fn remind_tasks(&mut self)
        ensures
            exists|now: Moment| now.valid() && final(self)@ == old(self)@.remind_tasks(now),
    {
        let now = Timestamp::now();
        self.remind_tasks_at(now);
        assert(final(self)@ == old(self)@.remind_tasks(now@));
    }

    /// The sum of the ages of the tasks at `now`.
    pub fn backlog_at(&self, now: Timestamp) -> (r: Span)
        ensures
            r@ == self@.backlog(now@),
    {
        let mut secs: i128 = 0;
        let mut nanos: i128 = 0;
        let mut i: usize = 0;
        let ghost tasks = task_views(self.tasks@);
        assert(tasks.subrange(0, 0) =~= Seq::empty());
        while i < self.tasks.len()
            invariant
                i <= self.tasks@.len(),
                tasks == task_views(self.tasks@),
                secs * NANOS_PER_SECOND + nanos == backlog_of(tasks.subrange(0, i as int), now@),
                -(i * 2_000_000_000_000_000_001) <= secs <= i * 2_000_000_000_000_000_001,
                0 <= nanos <= i * 1_000_000_000,
            decreases self.tasks@.len() - i,
        {
            let start = self.tasks[i].start();
            let age = now.since(start);
            let whole = age.secs();
            let beyond = age.subsec_nanos();
            proof {
                use_type_invariant(&now);
                assert(tasks.subrange(0, i + 1).drop_last() =~= tasks.subrange(0, i as int));
                assert(tasks.subrange(0, i + 1).last() == tasks[i as int]);
                assert(age@ == tasks[i as int].age(now@));
                let d = now@.secs - start@.secs;
                let e = now@.nanos - start@.nanos;
                assert(age@ == d * 1_000_000_000 + e);
                assert(d - 1 <= whole <= d && age@ == whole * 1_000_000_000 + beyond)
                    by (nonlinear_arith)
                    requires
                        age@ == d * 1_000_000_000 + e,
                        -1_000_000_000 < e < 1_000_000_000,
                        whole == age@ / 1_000_000_000,
                        beyond == age@ % 1_000_000_000,
                ;
                assert(-2_000_000_000_000_000_000 <= d <= 2_000_000_000_000_000_000);
                assert(i < 0x1_0000_0000_0000_0000);
            }
            secs = secs + whole;
            nanos = nanos + beyond as i128;
            i += 1;
        }
        assert(tasks.subrange(0, i as int) =~= tasks);
        assert(i < 0x1_0000_0000_0000_0000);
        let carry: i128 = nanos / (NANOS_PER_SECOND as i128);
        let rest: u32 = (nanos % (NANOS_PER_SECOND as i128)) as u32;
        Span::new(secs + carry, rest).unwrap()
    }

    /// The sum of the ages of the tasks now, by the clock.
    pub fn backlog(&self) -> (r: Span)
        ensures
            exists|now: Moment| now.valid() && r@ == self@.backlog(now),
    {
        let now = Timestamp::now();
        let r = self.backlog_at(now);
        assert(r@ == self@.backlog(now@));
        r
    }

    /// The grade that the backlog at `now` earns.
    pub fn productivity_at(&self, now: Timestamp) -> (r: Productivity)
        ensures
            r == Productivity::of(self@.backlog(now@)),
    {
        Productivity::from_backlog(self.backlog_at(now))
    }

    /// The grade that the backlog earns now, by the clock.
    pub fn productivity(&self) -> (r: Productivity)
        ensures
            exists|now: Moment| now.valid() && r == Productivity::of(self@.backlog(now)),
    {
        let now = Timestamp::now();
        let r = self.productivity_at(now);
        assert(r == Productivity::of(self@.backlog(now@)));
        r
    }

    /// Acts on `command` at `now`, and says what is left to be done outside.
    /// A task that is pushed begins at `now`. A task that is to be edited
    /// stays as it is until `edit` brings what the user wrote.
    pub fn act_at(&mut self, command: Command, now: Timestamp) -> (r: Effect)
        ensures
            final(self)@ == old(self)@.act(command@, now@),
            r == old(self)@.effect(command@),
    {
        self.focused = None;
        match command {
            Command::Push(name) => {
                self.push(Task::started(name, None, now));
                Effect::Nothing
            },
            Command::Continue(index) => {
                self.resume(index);
                Effect::Nothing
            },
            Command::Get(index) => {
                self.get(index);
                Effect::Nothing
            },
            Command::GetLast => {
                self.get_last();
                Effect::Nothing
            },
            Command::Pop(index) => {
                self.pop_at(index);
                Effect::Nothing
            },
            Command::PopLast => {
                self.pop();
                Effect::Nothing
            },
            Command::Edit(index) => {
                if index < self.tasks.len() {
                    Effect::EditTask(index)
                } else {
                    Effect::Nothing
                }
            },
            Command::EditLast => {
                if self.tasks.len() > 0 {
                    Effect::EditTask(self.tasks.len() - 1)
                } else {
                    Effect::Nothing
                }
            },
            Command::Remind(index) => {
                if index < self.tasks.len() {
                    let r = self.remind(index, now, Repeat::Never);
                    Effect::EditReminders
                } else {
                    Effect::Nothing
                }
            },
            Command::RemindLast => {
                if self.tasks.len() > 0 {
                    let r = self.remind(self.tasks.len() - 1, now, Repeat::Never);
                    Effect::EditReminders
                } else {
                    Effect::Nothing
                }
            },
            Command::EditReminders => Effect::EditReminders,
        }
    }

    /// Acts on `command` now, by the clock.
    pub fn act(&mut self, command: Command) -> (r: Effect)
        ensures
            exists|now: Moment| now.valid() && final(self)@ == old(self)@.act(command@, now),
            r == old(self)@.effect(command@),
    {
        let now = Timestamp::now();
        let r = self.act_at(command, now);
        assert(final(self)@ == old(self)@.act(command@, now@));
        r
    }
}

} // verus!

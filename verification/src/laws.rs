//! What holds of the mind whatever is done with it.

use crate::command::Intent;
use crate::mind::{distinct, position, position_from, promoted, pushed, MindView};
use crate::reminder::{lemma_upcoming_is_after, ReminderView, Rule};
use crate::task::TaskView;
use crate::time::Moment;
use vstd::prelude::*;

verus! {

/// The position that is found is the first one at which the key stands, and
/// none is found only where the key stands nowhere.
pub proof fn lemma_position(tasks: Seq<TaskView>, key: Seq<char>, from: int)
    requires
        0 <= from <= tasks.len(),
    ensures
        match position_from(tasks, key, from) {
            Some(i) => from <= i < tasks.len() && tasks[i].key() == key && forall|j: int|
                from <= j < i ==> (#[trigger] tasks[j]).key() != key,
            None => forall|j: int| from <= j < tasks.len() ==> (#[trigger] tasks[j]).key() != key,
        },
    decreases tasks.len() - from,
{
    if from < tasks.len() && tasks[from].key() != key {
        lemma_position(tasks, key, from + 1);
    }
}

/// Pushing never lets two tasks share a key. The task that ends up last has
/// the key that was pushed. Where that key was in the stack, the stack keeps
/// its length and the task its name and its start; where it was not, the
/// stack grows by the task that was pushed.
pub proof fn lemma_push(tasks: Seq<TaskView>, task: TaskView)
    requires
        distinct(tasks),
    ensures
        distinct(pushed(tasks, task)),
        pushed(tasks, task).len() > 0,
        pushed(tasks, task).last().key() == task.key(),
        match position(tasks, task.key()) {
            Some(i) => {
                &&& pushed(tasks, task).len() == tasks.len()
                &&& pushed(tasks, task).last().name == tasks[i].name
                &&& pushed(tasks, task).last().start == tasks[i].start
            },
            None => pushed(tasks, task) == tasks.push(task),
        },
{
    lemma_position(tasks, task.key(), 0);
    let after = pushed(tasks, task);
    match position(tasks, task.key()) {
        Some(i) => {
            let rest = tasks.remove(i);
            assert forall|a: int, b: int| 0 <= a < b < after.len() implies after[a].key()
                != after[b].key() by {
                let from_a = if a < i { a } else { a + 1 };
                assert(after[a] == tasks[from_a]);
                if b < rest.len() {
                    let from_b = if b < i { b } else { b + 1 };
                    assert(after[b] == tasks[from_b]);
                } else {
                    assert(after[b].key() == tasks[i].key());
                }
            }
        },
        None => {
            assert forall|a: int, b: int| 0 <= a < b < after.len() implies after[a].key()
                != after[b].key() by {
                assert(after[a] == tasks[a]);
                if b < tasks.len() {
                    assert(after[b] == tasks[b]);
                }
            }
        },
    }
}

/// What was pushed last is what comes off first: the task that `pop` takes
/// after a push has the key that was pushed, and where that key was new,
/// the push and the pop together leave the stack as it was.
pub proof fn lemma_push_then_pop(mind: MindView, task: TaskView)
    ensures
        mind.push(task).last() matches Some(top) && top.key() == task.key(),
        position(mind.tasks, task.key()) is None ==> mind.push(task).last() == Some(task)
            && mind.push(task).pop().tasks == mind.tasks,
        mind.push(task).pop().tasks.len() + 1 == mind.push(task).tasks.len(),
{
    lemma_position(mind.tasks, task.key(), 0);
    if position(mind.tasks, task.key()) is None {
        assert(mind.tasks.push(task).remove(mind.tasks.len() as int) =~= mind.tasks);
    }
}

/// Taking a task off leaves the others apart and in their order.
pub proof fn lemma_pop_at(mind: MindView, index: int)
    requires
        mind.distinct(),
    ensures
        mind.pop_at(index).distinct(),
        mind.pop_at(index).focused is None,
        mind.pop_at(index).reminders == mind.reminders,
        mind.holds(index) ==> mind.pop_at(index).tasks.len() == mind.tasks.len() - 1,
        !mind.holds(index) ==> mind.pop_at(index).tasks == mind.tasks,
{
    if mind.holds(index) {
        let after = mind.pop_at(index).tasks;
        assert forall|a: int, b: int| 0 <= a < b < after.len() implies after[a].key()
            != after[b].key() by {
            assert(after[a] == mind.tasks[if a < index { a } else { a + 1 }]);
            assert(after[b] == mind.tasks[if b < index { b } else { b + 1 }]);
        }
    }
}

/// Continuing with a task moves it to the end and nothing else: the stack
/// keeps its length and its tasks, the others keep their order, and no two
/// share a key. Out of range, nothing moves.
pub proof fn lemma_resume(mind: MindView, index: int)
    ensures
        mind.resume(index).tasks.len() == mind.tasks.len(),
        mind.resume(index).tasks.to_multiset() == mind.tasks.to_multiset(),
        mind.holds(index) ==> mind.resume(index).tasks.last() == mind.tasks[index],
        mind.holds(index) ==> mind.resume(index).tasks.drop_last() == mind.tasks.remove(index),
        !mind.holds(index) ==> mind.resume(index).tasks == mind.tasks,
        mind.distinct() ==> mind.resume(index).distinct(),
        mind.resume(index).focused is None,
{
    if mind.holds(index) {
        let after = mind.resume(index).tasks;
        let rest = mind.tasks.remove(index);
        assert(after.drop_last() =~= rest);
        vstd::seq_lib::lemma_seq_union_to_multiset_commutative(
            mind.tasks.subrange(0, index),
            mind.tasks.subrange(index, mind.tasks.len() as int),
        );
        assert(mind.tasks =~= mind.tasks.subrange(0, index) + mind.tasks.subrange(
            index,
            mind.tasks.len() as int,
        ));
        let head = mind.tasks.subrange(0, index);
        let tail = mind.tasks.subrange(index + 1, mind.tasks.len() as int);
        assert(rest =~= head + tail);
        assert(mind.tasks =~= head + (seq![mind.tasks[index]] + tail));
        assert(after =~= head + (tail + seq![mind.tasks[index]]));
        vstd::seq_lib::lemma_multiset_commutative(head, seq![mind.tasks[index]] + tail);
        vstd::seq_lib::lemma_multiset_commutative(head, tail + seq![mind.tasks[index]]);
        vstd::seq_lib::lemma_seq_union_to_multiset_commutative(seq![mind.tasks[index]], tail);
        if mind.distinct() {
            assert forall|a: int, b: int| 0 <= a < b < after.len() implies after[a].key()
                != after[b].key() by {
                assert(after[a] == mind.tasks[if a < index { a } else { a + 1 }]);
                if b < rest.len() {
                    assert(after[b] == mind.tasks[if b < index { b } else { b + 1 }]);
                }
            }
        }
    }
}

/// Looking at a task changes neither the stack nor the reminders, and the
/// focus is on the task asked for or, out of range, on none.
pub proof fn lemma_get(mind: MindView, index: int)
    ensures
        mind.get(index).tasks == mind.tasks,
        mind.get(index).reminders == mind.reminders,
        mind.get(index).focus_in_range(),
        !mind.holds(index) ==> mind.get(index).focused is None,
        mind.holds(index) ==> mind.get(index).focused == Some(index),
{
}

/// An edit keeps the tasks apart as long as the new name is not that of
/// another task.
pub proof fn lemma_edit(mind: MindView, index: int, name: Seq<char>, details: Option<Seq<char>>)
    requires
        mind.distinct(),
        mind.holds(index),
        forall|j: int|
            0 <= j < mind.tasks.len() && j != index ==> (#[trigger] mind.tasks[j]).key()
                != crate::text::trim(name),
    ensures
        mind.edit(index, name, details).distinct(),
        mind.edit(index, name, details).tasks.len() == mind.tasks.len(),
        mind.edit(index, name, details).tasks[index].start == mind.tasks[index].start,
{
    let after = mind.edit(index, name, details).tasks;
    assert forall|a: int, b: int| 0 <= a < b < after.len() implies after[a].key()
        != after[b].key() by {
        if a != index {
            assert(after[a] == mind.tasks[a]);
        }
        if b != index {
            assert(after[b] == mind.tasks[b]);
        }
    }
}

/// Turning a task into a reminder takes the task off the stack and puts
/// one reminder of its name before the others.
pub proof fn lemma_remind(mind: MindView, index: int, anchor: Moment, repeat: Rule)
    requires
        mind.holds(index),
    ensures
        mind.remind(index, anchor, repeat).tasks == mind.pop_at(index).tasks,
        mind.remind(index, anchor, repeat).reminders.len() == mind.reminders.len() + 1,
        mind.remind(index, anchor, repeat).reminders[0].name == mind.tasks[index].name,
        mind.remind(index, anchor, repeat).reminders[0].when == anchor,
        mind.remind(index, anchor, repeat).reminders.drop_first() == mind.reminders,
        mind.distinct() ==> mind.remind(index, anchor, repeat).distinct(),
{
    assert(mind.remind(index, anchor, repeat).reminders.drop_first() =~= mind.reminders);
    if mind.distinct() {
        lemma_pop_at(mind, index);
    }
}

/// The tasks stay apart through a push of any task.
proof fn lemma_pushed_valid(tasks: Seq<TaskView>, task: TaskView)
    requires
        forall|i: int| 0 <= i < tasks.len() ==> (#[trigger] tasks[i]).start.valid(),
        task.start.valid(),
    ensures
        forall|i: int|
            0 <= i < pushed(tasks, task).len() ==> (#[trigger] pushed(tasks, task)[i]).start.valid(),
{
    lemma_position(tasks, task.key(), 0);
    let after = pushed(tasks, task);
    match position(tasks, task.key()) {
        Some(p) => {
            assert forall|i: int| 0 <= i < after.len() implies (#[trigger] after[i]).start.valid() by {
                if i < after.len() - 1 {
                    assert(after[i] == tasks[if i < p { i } else { i + 1 }]);
                } else {
                    assert(after[i].start == tasks[p].start);
                }
            }
        },
        None => {
            assert forall|i: int| 0 <= i < after.len() implies (#[trigger] after[i]).start.valid() by {
                if i < tasks.len() {
                    assert(after[i] == tasks[i]);
                }
            }
        },
    }
}

/// After the reminders were gone through at `now`, none of them is due:
/// each lies after `now`. The tasks are still apart, and everything is
/// still in range.
pub proof fn lemma_promoted(tasks: Seq<TaskView>, reminders: Seq<ReminderView>, now: Moment)
    requires
        now.valid(),
        forall|i: int| 0 <= i < reminders.len() ==> (#[trigger] reminders[i]).valid(),
    ensures
        forall|i: int|
            0 <= i < promoted(tasks, reminders, now).1.len() ==> {
                &&& !(#[trigger] promoted(tasks, reminders, now).1[i]).is_due(now)
                &&& promoted(tasks, reminders, now).1[i].valid()
            },
        promoted(tasks, reminders, now).1.len() <= reminders.len(),
        distinct(tasks) ==> distinct(promoted(tasks, reminders, now).0),
        (forall|i: int| 0 <= i < tasks.len() ==> (#[trigger] tasks[i]).start.valid()) ==> (forall|
            i: int,
        |
            0 <= i < promoted(tasks, reminders, now).0.len() ==> (#[trigger] promoted(
                tasks,
                reminders,
                now,
            ).0[i]).start.valid()),
    decreases reminders.len(),
{
    if reminders.len() > 0 {
        let earlier = reminders.drop_last();
        let reminder = reminders.last();
        assert forall|i: int| 0 <= i < earlier.len() implies (#[trigger] earlier[i]).valid() by {
            assert(earlier[i] == reminders[i]);
        }
        lemma_promoted(tasks, earlier, now);
        let (stack, kept) = promoted(tasks, earlier, now);
        let after = promoted(tasks, reminders, now);
        assert(reminder.valid());
        if reminder.is_due(now) {
            lemma_upcoming_is_after(reminder.repeat, reminder.when, now);
            let task = TaskView::from_reminder(reminder, now);
            if distinct(tasks) {
                lemma_push(stack, task);
            }
            if forall|i: int| 0 <= i < tasks.len() ==> (#[trigger] tasks[i]).start.valid() {
                lemma_pushed_valid(stack, task);
            }
        }
        assert forall|i: int| 0 <= i < after.1.len() implies !(#[trigger] after.1[i]).is_due(now)
            && after.1[i].valid() by {
            if i < kept.len() {
                assert(after.1[i] == kept[i]);
            }
        }
    }
}

/// Where no reminder is due, going through them changes nothing.
pub proof fn lemma_promoted_settled(tasks: Seq<TaskView>, reminders: Seq<ReminderView>, now: Moment)
    requires
        forall|i: int| 0 <= i < reminders.len() ==> !(#[trigger] reminders[i]).is_due(now),
    ensures
        promoted(tasks, reminders, now) == (tasks, reminders),
    decreases reminders.len(),
{
    if reminders.len() > 0 {
        let earlier = reminders.drop_last();
        assert forall|i: int| 0 <= i < earlier.len() implies !(#[trigger] earlier[i]).is_due(
            now,
        ) by {
            assert(earlier[i] == reminders[i]);
        }
        lemma_promoted_settled(tasks, earlier, now);
        assert(!reminders.last().is_due(now));
        assert(earlier.push(reminders.last()) =~= reminders);
    } else {
        assert(reminders =~= Seq::empty());
    }
}

/// What becomes of the reminders does not hang on the stack: each reminder
/// is judged by its own time and rule.
pub proof fn lemma_reminders_apart_from_tasks(
    tasks: Seq<TaskView>,
    other: Seq<TaskView>,
    reminders: Seq<ReminderView>,
    now: Moment,
)
    ensures
        promoted(tasks, reminders, now).1 == promoted(other, reminders, now).1,
    decreases reminders.len(),
{
    if reminders.len() > 0 {
        lemma_reminders_apart_from_tasks(tasks, other, reminders.drop_last(), now);
    }
}

/// Catching up happens once. After the reminders were gone through at
/// `now`, every one that is left lies after `now`, and to go through them
/// again at the same `now` changes nothing: no task is pushed a second time.
pub proof fn lemma_remind_tasks(mind: MindView, now: Moment)
    requires
        mind.valid(),
        now.valid(),
    ensures
        mind.remind_tasks(now).settled(now),
        mind.remind_tasks(now).valid(),
        mind.distinct() ==> mind.remind_tasks(now).distinct(),
        mind.remind_tasks(now).remind_tasks(now) == mind.remind_tasks(now),
        mind.settled(now) ==> mind.remind_tasks(now) == mind.unfocused(),
{
    lemma_promoted(mind.tasks, mind.reminders, now);
    let after = mind.remind_tasks(now);
    lemma_promoted_settled(after.tasks, after.reminders, now);
    if mind.settled(now) {
        lemma_promoted_settled(mind.tasks, mind.reminders, now);
    }
}

/// A reminder that never comes back is used up when it is due: alone in the
/// list, it pushes its one task and is gone. One that comes back every day
/// stays, at a time after `now`.
pub proof fn lemma_one_due_reminder(tasks: Seq<TaskView>, reminder: ReminderView, now: Moment)
    requires
        reminder.valid(),
        reminder.is_due(now),
    ensures
        promoted(tasks, seq![reminder], now).0 == pushed(
            tasks,
            TaskView::from_reminder(reminder, now),
        ),
        reminder.repeat is Never ==> promoted(tasks, seq![reminder], now).1 == Seq::<
            ReminderView,
        >::empty(),
        reminder.upcoming(now) matches Some(next) ==> promoted(tasks, seq![reminder], now).1
            == seq![next] && next.when.is_after(now) && next.name == reminder.name && next.repeat
            == reminder.repeat,
        position(tasks, TaskView::from_reminder(reminder, now).key()) is None ==> promoted(
            tasks,
            seq![reminder],
            now,
        ).0 == tasks.push(TaskView::from_reminder(reminder, now)),
{
    let one = seq![reminder];
    assert(one.drop_last() =~= Seq::<ReminderView>::empty());
    assert(one.last() == reminder);
    assert(promoted(tasks, one.drop_last(), now) == (tasks, Seq::<ReminderView>::empty()));
    lemma_upcoming_is_after(reminder.repeat, reminder.when, now);
    match reminder.upcoming(now) {
        Some(next) => {
            assert(Seq::<ReminderView>::empty().push(next) =~= seq![next]);
        },
        None => {},
    }
}

/// Whatever is asked, the tasks stay apart, the focus stays on a task of
/// the stack or on none, everything stays in range, and only a request to
/// look at a task leaves a focus behind.
pub proof fn lemma_act(mind: MindView, intent: Intent, now: Moment)
    requires
        mind.valid(),
        now.valid(),
    ensures
        mind.act(intent, now).valid(),
        mind.distinct() ==> mind.act(intent, now).distinct(),
        mind.act(intent, now).focused is Some ==> intent is Get || intent is GetLast,
{
    let after = mind.act(intent, now);
    match intent {
        Intent::Push(name) => {
            let task = TaskView { name, details: None, start: now };
            lemma_pushed_valid(mind.tasks, task);
            if mind.distinct() {
                lemma_push(mind.tasks, task);
            }
        },
        Intent::Continue(index) => {
            lemma_resume(mind, index as int);
            if mind.holds(index as int) {
                assert forall|i: int| 0 <= i < after.tasks.len() implies (
                #[trigger] after.tasks[i]).start.valid() by {
                    if i < after.tasks.len() - 1 {
                        assert(after.tasks[i] == mind.tasks[if i < index { i } else { i + 1 }]);
                    }
                }
            }
        },
        Intent::Pop(index) => {
            lemma_removal_valid(mind, index as int);
        },
        Intent::PopLast => {
            lemma_removal_valid(mind, mind.tasks.len() - 1);
        },
        Intent::Remind(index) => {
            if mind.holds(index as int) {
                lemma_reminded_valid(mind, index as int, now);
            }
        },
        Intent::RemindLast => {
            if mind.tasks.len() > 0 {
                lemma_reminded_valid(mind, mind.tasks.len() - 1, now);
            }
        },
        _ => {},
    }
}

proof fn lemma_removal_valid(mind: MindView, index: int)
    requires
        mind.valid(),
    ensures
        mind.pop_at(index).valid(),
        mind.distinct() ==> mind.pop_at(index).distinct(),
{
    if mind.distinct() {
        lemma_pop_at(mind, index);
    }
    if mind.holds(index) {
        let after = mind.pop_at(index).tasks;
        assert forall|i: int| 0 <= i < after.len() implies (#[trigger] after[i]).start.valid() by {
            assert(after[i] == mind.tasks[if i < index { i } else { i + 1 }]);
        }
    }
}

proof fn lemma_reminded_valid(mind: MindView, index: int, now: Moment)
    requires
        mind.valid(),
        now.valid(),
        mind.holds(index),
    ensures
        mind.remind(index, now, Rule::Never).valid(),
        mind.distinct() ==> mind.remind(index, now, Rule::Never).distinct(),
{
    lemma_removal_valid(mind, index);
    lemma_remind(mind, index, now, Rule::Never);
    let after = mind.remind(index, now, Rule::Never);
    assert(after.tasks == mind.pop_at(index).tasks);
    assert forall|i: int| 0 <= i < after.reminders.len() implies (
    #[trigger] after.reminders[i]).valid() by {
        if i > 0 {
            assert(after.reminders[i] == mind.reminders[i - 1]);
        }
    }
}

} // verus!
